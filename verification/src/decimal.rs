//! Decimal text of unsigned integers: the rendering of std's `to_string` on
//! unsigned integers and the reading of std's `str::parse::<u64>`.
use vstd::prelude::*;
use crate::text::push_char;

verus! {

broadcast use vstd::string::group_string_axioms;

pub open spec fn is_digit(c: char) -> bool {
    '0' <= c && c <= '9'
}

pub open spec fn digit_of(c: char) -> nat {
    (c as int - '0' as int) as nat
}

pub open spec fn digit_char(d: nat) -> char {
    ((d + 48) as u8) as char
}

pub open spec fn all_digits(s: Seq<char>) -> bool {
    forall|i: int| 0 <= i < s.len() ==> is_digit(s[i])
}

/// The number that a string of decimal digits denotes.
pub open spec fn digits_value(s: Seq<char>) -> nat
    decreases s.len(),
{
    if s.len() == 0 {
        0
    } else {
        digits_value(s.drop_last()) * 10 + digit_of(s.last())
    }
}

/// The digits of `s` after an optional leading `+`.
pub open spec fn unsigned_digits(s: Seq<char>) -> Seq<char> {
    if s.len() > 0 && s[0] == '+' {
        s.drop_first()
    } else {
        s
    }
}

/// What std's `str::parse::<u64>` gives: an optional `+`, then at least one
/// ASCII digit, denoting a number that fits in a `u64`.
pub open spec fn parse_u64_spec(s: Seq<char>) -> Option<u64> {
    let d = unsigned_digits(s);
    if d.len() > 0 && all_digits(d) && digits_value(d) <= u64::MAX {
        Some(digits_value(d) as u64)
    } else {
        None
    }
}

/// The decimal rendering of `n`, with no sign and no leading zero.
pub open spec fn decimal_text(n: nat) -> Seq<char>
    decreases n,
{
    if n < 10 {
        seq![digit_char(n)]
    } else {
        decimal_text(n / 10).push(digit_char(n % 10))
    }
}

proof fn lemma_digit_char(d: nat)
    requires
        d < 10,
    ensures
        is_digit(digit_char(d)),
        digit_of(digit_char(d)) == d,
        digit_char(d) != '+',
{
}

proof fn lemma_digits_value_push(s: Seq<char>, c: char)
    ensures
        digits_value(s.push(c)) == digits_value(s) * 10 + digit_of(c),
{
    assert(s.push(c).drop_last() =~= s);
}

/// A prefix of a digit string never denotes more than the whole.
proof fn lemma_digits_value_prefix(s: Seq<char>, i: int)
    requires
        0 <= i <= s.len(),
    ensures
        digits_value(s.take(i)) <= digits_value(s),
    decreases s.len(),
{
    if i < s.len() {
        assert(s.drop_last().take(i) =~= s.take(i));
        lemma_digits_value_prefix(s.drop_last(), i);
    } else {
        assert(s.take(i) =~= s);
    }
}

/// The decimal rendering of `n` reads back as `n`.
pub proof fn lemma_decimal_text(n: nat)
    ensures
        decimal_text(n).len() > 0,
        all_digits(decimal_text(n)),
        digits_value(decimal_text(n)) == n,
        decimal_text(n)[0] != '+',
    decreases n,
{
    if n < 10 {
        lemma_digit_char(n);
        assert(seq![digit_char(n)].drop_last() =~= Seq::<char>::empty());
        assert(digits_value(Seq::<char>::empty()) == 0);
    } else {
        lemma_decimal_text(n / 10);
        lemma_digit_char(n % 10);
        vstd::arithmetic::div_mod::lemma_fundamental_div_mod(n as int, 10);
        lemma_digits_value_push(decimal_text(n / 10), digit_char(n % 10));
    }
}

/// `parse::<u64>` of the decimal rendering of `n` gives back `n`.
pub proof fn lemma_parse_decimal_text(n: u64)
    ensures
        parse_u64_spec(decimal_text(n as nat)) == Some(n),
{
    lemma_decimal_text(n as nat);
}

/// Appends the decimal rendering of `n` to `out`.
fn write_decimal(n: u128, out: &mut String)
    ensures
        final(out)@ == old(out)@ + decimal_text(n as nat),
    decreases n,
{
    if n >= 10 {
        write_decimal(n / 10, out);
    }
    let d: u8 = (n % 10) as u8;
    let c: char = (d + 48) as char;
    push_char(out, c);
    assert(final(out)@ =~= old(out)@ + decimal_text(n as nat));
}

/// The decimal rendering of `n` (std's `to_string` on an unsigned integer).
pub fn decimal_string(n: u128) -> (r: String)
    ensures
        r@ == decimal_text(n as nat),
{
    let mut out = String::new();
    write_decimal(n, &mut out);
    assert(out@ =~= decimal_text(n as nat));
    out
}

/// Reads `s` as std's `str::parse::<u64>` does.
pub fn parse_u64(s: &str) -> (r: Option<u64>)
    ensures
        r == parse_u64_spec(s@),
{
    let n = s.unicode_len();
    if n == 0 {
        return None;
    }
    let start: usize = if s.get_char(0) == '+' { 1 } else { 0 };
    let ghost d = unsigned_digits(s@);
    assert(d =~= s@.skip(start as int));
    if start == n {
        return None;
    }
    let mut acc: u64 = 0;
    let mut idx: usize = 0;
    for x in it: s.chars()
        invariant
            n == s@.len(),
            start <= 1,
            start < n,
            d == s@.skip(start as int),
            d == unsigned_digits(s@),
            idx == it.index(),
            it.seq() == s@,
            idx >= start ==> all_digits(d.take(idx - start)) && acc == digits_value(d.take(idx - start)),
            idx < start ==> acc == 0,
    {
        assert(idx < n);
        if idx >= start {
            let ghost done = d.take(idx - start);
            if !('0' <= x && x <= '9') {
                assert(s@[idx as int] == x);
                assert(!is_digit(d[idx - start]));
                return None;
            }
            assert(d.take(idx - start + 1) =~= done.push(x));
            proof {
                lemma_digits_value_push(done, x);
            }
            let v: u64 = (x as u32 - '0' as u32) as u64;
            match acc.checked_mul(10) {
                Some(m) => match m.checked_add(v) {
                    Some(a) => {
                        acc = a;
                    },
                    None => {
                        proof {
                            lemma_digits_value_prefix(d, idx - start + 1);
                        }
                        return None;
                    },
                },
                None => {
                    proof {
                        lemma_digits_value_prefix(d, idx - start + 1);
                    }
                    return None;
                },
            }
        } else {
            assert(d.take(0) =~= Seq::<char>::empty());
        }
        idx = idx + 1;
    }
    assert(d.take(n - start) =~= d);
    Some(acc)
}

} // verus!
