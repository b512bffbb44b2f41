//! Decimal text of integers: formatting as `to_string` writes it and parsing as
//! `str::parse` reads it.
use vstd::prelude::*;

verus! {

/// The ASCII digit for `d` (`0 <= d < 10`).
pub open spec fn digit_char(d: nat) -> char {
    (48 + d) as char
}

/// Whether `c` is an ASCII decimal digit.
pub open spec fn is_digit(c: char) -> bool {
    '0' <= c && c <= '9'
}

/// The value of the ASCII digit `c`.
pub open spec fn digit_value(c: char) -> nat {
    ((c as int) - 48) as nat
}

/// The decimal text of `n`, without sign or leading zeros.
pub open spec fn dec(n: nat) -> Seq<char>
    decreases n,
{
    if n < 10 {
        seq![digit_char(n)]
    } else {
        dec(n / 10).push(digit_char(n % 10))
    }
}

/// The decimal text of `n`, with a leading `-` when it is negative.
pub open spec fn dec_int(n: int) -> Seq<char> {
    if n < 0 {
        seq!['-'] + dec((-n) as nat)
    } else {
        dec(n as nat)
    }
}

/// Whether every character of `s` is an ASCII digit.
pub open spec fn all_digits(s: Seq<char>) -> bool {
    forall|i: int| 0 <= i < s.len() ==> is_digit(#[trigger] s[i])
}

/// The value of a string of ASCII digits.
pub open spec fn digits_value(s: Seq<char>) -> nat
    decreases s.len(),
{
    if s.len() == 0 {
        0
    } else {
        digits_value(s.drop_last()) * 10 + digit_value(s.last())
    }
}

/// `s` without one leading `+`, if it has one.
pub open spec fn strip_plus(s: Seq<char>) -> Seq<char> {
    if s.len() > 0 && s[0] == '+' {
        s.drop_first()
    } else {
        s
    }
}

/// What `str::parse::<u32>` gives for `s`: an optional `+`, then one or more
/// ASCII digits whose value fits in a `u32`.
pub open spec fn parse_u32_spec(s: Seq<char>) -> Option<u32> {
    let d = strip_plus(s);
    if d.len() > 0 && all_digits(d) && digits_value(d) <= u32::MAX {
        Some(digits_value(d) as u32)
    } else {
        None
    }
}

/// What `str::parse::<i64>` gives for `s`: an optional `+` or `-`, then one or
/// more ASCII digits, with a value that fits in an `i64`.
pub open spec fn parse_i64_spec(s: Seq<char>) -> Option<i64> {
    if s.len() > 0 && s[0] == '-' {
        let d = s.drop_first();
        if d.len() > 0 && all_digits(d) && digits_value(d) <= 0x8000_0000_0000_0000 {
            Some((-(digits_value(d) as int)) as i64)
        } else {
            None
        }
    } else {
        let d = strip_plus(s);
        if d.len() > 0 && all_digits(d) && digits_value(d) <= i64::MAX {
            Some(digits_value(d) as i64)
        } else {
            None
        }
    }
}

/// The decimal text of an unsigned number.
pub fn dec_chars(n: u64) -> (r: Vec<char>)
    ensures
        r@ == dec(n as nat),
    decreases n,
{
    let d: u8 = (n % 10) as u8;
    let c: char = (d + 48) as char;
    assert(c == digit_char((n % 10) as nat));
    if n < 10 {
        let mut r: Vec<char> = Vec::new();
        r.push(c);
        assert(r@ =~= seq![digit_char(n as nat)]);
        r
    } else {
        let mut r = dec_chars(n / 10);
        r.push(c);
        r
    }
}

/// The decimal text of a signed number.
pub fn dec_chars_i64(n: i64) -> (r: Vec<char>)
    ensures
        r@ == dec_int(n as int),
{
    if n < 0 {
        let magnitude: u64 = if n == i64::MIN {
            0x8000_0000_0000_0000u64
        } else {
            (-n) as u64
        };
        let digits = dec_chars(magnitude);
        let mut r: Vec<char> = Vec::new();
        r.push('-');
        crate::text::append_chars(&mut r, digits.as_slice());
        assert(r@ =~= seq!['-'] + dec((-(n as int)) as nat));
        r
    } else {
        dec_chars(n as u64)
    }
}

/// The decimal text of an unsigned number, as a string.
pub fn dec_string(n: u64) -> (r: String)
    ensures
        r@ == dec(n as nat),
{
    let v = dec_chars(n);
    crate::text::string_of(v.as_slice())
}

/// The decimal text of a signed number, as a string.
pub fn dec_string_i64(n: i64) -> (r: String)
    ensures
        r@ == dec_int(n as int),
{
    let v = dec_chars_i64(n);
    crate::text::string_of(v.as_slice())
}

/// Appending a digit never lowers the value of a digit string.
pub proof fn lemma_digits_value_grows(s: Seq<char>, i: int, j: int)
    requires
        0 <= i <= j <= s.len(),
    ensures
        digits_value(s.take(i)) <= digits_value(s.take(j)),
    decreases j - i,
{
    if i < j {
        lemma_digits_value_grows(s, i, j - 1);
        assert(s.take(j).drop_last() =~= s.take(j - 1));
    }
}

/// Reads the value of a run of ASCII digits, or `None` when the run is empty,
/// holds another character, or its value exceeds `bound`.
fn parse_digits(d: &[char], bound: u64) -> (r: Option<u64>)
    requires
        bound >= 9,
    ensures
        r == (if d@.len() > 0 && all_digits(d@) && digits_value(d@) <= bound {
            Some(digits_value(d@) as u64)
        } else {
            None::<u64>
        }),
{
    let n = d.len();
    if n == 0 {
        return None;
    }
    let mut acc: u64 = 0;
    let mut i: usize = 0;
    while i < n
        invariant
            n == d@.len(),
            i <= n,
            all_digits(d@.take(i as int)),
            acc as nat == digits_value(d@.take(i as int)),
            acc <= bound,
            bound >= 9,
        decreases n - i,
    {
        let c = d[i];
        assert(d@.take(i + 1).drop_last() =~= d@.take(i as int));
        if !('0' <= c && c <= '9') {
            assert(!is_digit(d@[i as int]));
            return None;
        }
        let v: u64 = ((c as u32) - 48) as u64;
        assert(all_digits(d@.take(i + 1)));
        if acc > (bound - v) / 10 {
            assert(digits_value(d@.take(i + 1)) > bound) by (nonlinear_arith)
                requires
                    acc > (bound - v) / 10,
                    digits_value(d@.take(i + 1)) == acc * 10 + v,
                    v <= bound || v <= 9,
            {
            }
            proof {
                lemma_digits_value_grows(d@, i + 1, n as int);
                assert(d@.take(n as int) =~= d@);
            }
            return None;
        }
        assert(acc * 10 + v <= bound) by (nonlinear_arith)
            requires
                acc <= (bound - v) / 10,
                v <= bound,
        {
        }
        acc = acc * 10 + v;
        i = i + 1;
    }
    assert(d@.take(n as int) =~= d@);
    Some(acc)
}

/// Parses an unsigned 32-bit number as `str::parse::<u32>` does.
pub fn parse_u32(s: &[char]) -> (r: Option<u32>)
    ensures
        r == parse_u32_spec(s@),
{
    let start: usize = if s.len() > 0 && s[0] == '+' { 1 } else { 0 };
    let digits = vstd::slice::slice_subrange(s, start, s.len());
    assert(digits@ == strip_plus(s@));
    match parse_digits(digits, 0xFFFF_FFFF) {
        Some(v) => Some(v as u32),
        None => None,
    }
}

/// Parses a signed 64-bit number as `str::parse::<i64>` does.
pub fn parse_i64(s: &[char]) -> (r: Option<i64>)
    ensures
        r == parse_i64_spec(s@),
{
    if s.len() > 0 && s[0] == '-' {
        let digits = vstd::slice::slice_subrange(s, 1, s.len());
        assert(digits@ == s@.drop_first());
        match parse_digits(digits, 0x8000_0000_0000_0000) {
            Some(v) => {
                if v == 0x8000_0000_0000_0000u64 {
                    Some(i64::MIN)
                } else {
                    Some(-(v as i64))
                }
            },
            None => None,
        }
    } else {
        let start: usize = if s.len() > 0 && s[0] == '+' { 1 } else { 0 };
        let digits = vstd::slice::slice_subrange(s, start, s.len());
        assert(digits@ == strip_plus(s@));
        match parse_digits(digits, 0x7FFF_FFFF_FFFF_FFFF) {
            Some(v) => Some(v as i64),
            None => None,
        }
    }
}

/// The decimal text of a number is a non-empty string of digits whose value
/// is the number.
pub proof fn lemma_dec(n: nat)
    ensures
        dec(n).len() >= 1,
        all_digits(dec(n)),
        digits_value(dec(n)) == n,
    decreases n,
{
    let c = digit_char(n % 10);
    assert(is_digit(c));
    assert(digit_value(c) == n % 10);
    if n < 10 {
        assert(dec(n).drop_last() =~= Seq::<char>::empty());
        assert(digits_value(Seq::<char>::empty()) == 0);
    } else {
        lemma_dec(n / 10);
        let d = dec(n);
        assert(d.drop_last() =~= dec(n / 10));
        assert(d.last() == c);
        assert((n / 10) * 10 + n % 10 == n) by (nonlinear_arith);
        assert(digits_value(d) == digits_value(dec(n / 10)) * 10 + digit_value(c));
        assert forall|i: int| 0 <= i < d.len() implies is_digit(#[trigger] d[i]) by {
            if i < d.len() - 1 {
                assert(d[i] == dec(n / 10)[i]);
            }
        }
    }
}

/// The decimal text of a number from zero to the largest `i64` reads back
/// as that number.
pub proof fn lemma_parse_i64_dec(n: int)
    requires
        0 <= n <= i64::MAX,
    ensures
        parse_i64_spec(dec(n as nat)) == Some(n as i64),
{
    lemma_dec(n as nat);
    let d = dec(n as nat);
    assert(is_digit(d[0]));
    assert(strip_plus(d) == d);
}

} // verus!
