//! Decimal integers as `str::parse` reads them, and the range checks of the
//! constant values of a portable graph.
use vstd::prelude::*;
use crate::text::{all_digits, is_ascii_digit};

verus! {

/// The value of an ASCII decimal digit.
pub open spec fn digit_value(c: char) -> nat {
    ((c as int) - ('0' as int)) as nat
}

/// The value of a run of decimal digits.
pub open spec fn digits_value(s: Seq<char>) -> nat
    decreases s.len(),
{
    if s.len() == 0 {
        0
    } else {
        digits_value(s.drop_last()) * 10 + digit_value(s.last())
    }
}

/// Two to the power `n`.
pub open spec fn two_to(n: nat) -> nat
    decreases n,
{
    if n == 0 {
        1
    } else {
        2 * two_to((n - 1) as nat)
    }
}

/// A decimal integer as `str::parse` reads it: an optional `+` (or `-` for a
/// signed type), then one digit or more.
pub open spec fn decimal_integer(s: Seq<char>, signed: bool) -> Option<int> {
    let negative = signed && s.len() > 0 && s[0] == '-';
    let body = if s.len() > 0 && (s[0] == '+' || negative) {
        s.drop_first()
    } else {
        s
    };
    if body.len() > 0 && all_digits(body) {
        Some(
            if negative {
                -(digits_value(body) as int)
            } else {
                digits_value(body) as int
            },
        )
    } else {
        None
    }
}

/// `str::parse` into an integer type whose values are `min..=max`.
pub open spec fn parse_within(s: Seq<char>, signed: bool, min: int, max: int) -> Option<int> {
    match decimal_integer(s, signed) {
        Some(v) => if min <= v && v <= max {
            Some(v)
        } else {
            None
        },
        None => None,
    }
}

/// Appending digits never lowers the value.
pub proof fn lemma_digits_value_prefix(s: Seq<char>, k: int)
    requires
        0 <= k <= s.len(),
    ensures
        digits_value(s.take(k)) <= digits_value(s),
    decreases s.len() - k,
{
    if k < s.len() {
        lemma_digits_value_prefix(s, k + 1);
        assert(s.take(k + 1).drop_last() =~= s.take(k));
    } else {
        assert(s.take(k) =~= s);
    }
}

fn digit_of(c: char) -> (r: Option<u128>)
    ensures
        r is Some <==> is_ascii_digit(c),
        r matches Some(d) ==> d == digit_value(c) && d < 10,
{
    if c == '0' {
        Some(0)
    } else if c == '1' {
        Some(1)
    } else if c == '2' {
        Some(2)
    } else if c == '3' {
        Some(3)
    } else if c == '4' {
        Some(4)
    } else if c == '5' {
        Some(5)
    } else if c == '6' {
        Some(6)
    } else if c == '7' {
        Some(7)
    } else if c == '8' {
        Some(8)
    } else if c == '9' {
        Some(9)
    } else {
        None
    }
}

/// The value of the digits `cs[from..]`, when they are all digits and the
/// value fits in `u128`.
fn digits_magnitude(cs: &[char], from: usize) -> (r: Option<u128>)
    requires
        from <= cs.len(),
    ensures
        match r {
            Some(m) => all_digits(cs@.skip(from as int)) && m == digits_value(cs@.skip(from as int)),
            None => !all_digits(cs@.skip(from as int)) || digits_value(cs@.skip(from as int))
                > u128::MAX,
        },
{
    let ghost body = cs@.skip(from as int);
    let mut acc: u128 = 0;
    let mut i: usize = from;
    assert(body.take(0) =~= Seq::<char>::empty());
    while i < cs.len()
        invariant
            from <= i <= cs.len(),
            body == cs@.skip(from as int),
            all_digits(body.take(i - from)),
            acc == digits_value(body.take(i - from)),
        decreases cs.len() - i,
    {
        let ghost k = i - from;
        assert(body[k] == cs@[i as int]);
        assert(body.take(k + 1).drop_last() =~= body.take(k));
        assert(body.take(k + 1).last() == body[k]);
        let d = match digit_of(cs[i]) {
            Some(d) => d,
            None => {
                assert(!is_ascii_digit(body[k]));
                return None;
            },
        };
        let next = match acc.checked_mul(10) {
            Some(t) => t.checked_add(d),
            None => None,
        };
        match next {
            Some(v) => {
                acc = v;
            },
            None => {
                proof {
                    if all_digits(body) {
                        lemma_digits_value_prefix(body, k + 1);
                    }
                }
                return None;
            },
        }
        i += 1;
    }
    assert(body.take(i - from) =~= body);
    Some(acc)
}

/// Reads a decimal integer as `str::parse` does ([`decimal_integer`]),
/// as its sign and magnitude, when the magnitude fits in `u128`.
pub fn parse_decimal(cs: &[char], signed: bool) -> (r: Option<(bool, u128)>)
    ensures
        match decimal_integer(cs@, signed) {
            Some(v) => if -(u128::MAX as int) <= v <= u128::MAX {
                r matches Some((negative, m)) && v == if negative {
                    -(m as int)
                } else {
                    m as int
                } && (negative ==> m > 0 || v == 0) && (!negative ==> v >= 0)
            } else {
                r is None
            },
            None => r is None,
        },
{
    let negative = signed && cs.len() > 0 && cs[0] == '-';
    let from: usize = if cs.len() > 0 && (cs[0] == '+' || negative) {
        1
    } else {
        0
    };
    proof {
        if from == 1 {
            assert(cs@.skip(1) =~= cs@.drop_first());
        } else {
            assert(cs@.skip(0) =~= cs@);
        }
    }
    if from == cs.len() {
        return None;
    }
    match digits_magnitude(cs, from) {
        Some(m) => Some((negative, m)),
        None => None,
    }
}

/// Powers of two grow with the exponent.
pub proof fn lemma_two_to_monotone(a: nat, b: nat)
    requires
        a <= b,
    ensures
        two_to(a) <= two_to(b),
    decreases b,
{
    if a < b {
        lemma_two_to_monotone(a, (b - 1) as nat);
    }
}

/// Exponents add.
pub proof fn lemma_two_to_add(a: nat, b: nat)
    ensures
        two_to(a + b) == two_to(a) * two_to(b),
    decreases b,
{
    if b > 0 {
        lemma_two_to_add(a, (b - 1) as nat);
        assert(two_to(a + b) == 2 * two_to((a + b - 1) as nat));
        assert((a + (b - 1)) as nat == (a + b - 1) as nat);
        let x = two_to(a);
        let y = two_to((b - 1) as nat);
        assert(two_to(b) == 2 * y);
        assert(two_to((a + b - 1) as nat) == x * y);
        assert(2 * (x * y) == x * (2 * y)) by (nonlinear_arith);
        assert(two_to(a + b) == x * two_to(b));
    } else {
        assert(two_to(b) == 1);
        assert(a + b == a);
    }
}

/// The largest power of two below `i128::MAX`.
pub proof fn lemma_two_to_127()
    ensures
        two_to(127) == 0x8000_0000_0000_0000_0000_0000_0000_0000,
{
    reveal_with_fuel(two_to, 9);
    assert(two_to(7) == 128);
    assert(two_to(8) == 256);
    lemma_two_to_add(8, 8);
    assert(two_to(16) == 0x1_0000);
    lemma_two_to_add(16, 16);
    assert(two_to(32) == 0x1_0000_0000);
    lemma_two_to_add(32, 32);
    assert(two_to(64) == 0x1_0000_0000_0000_0000);
    lemma_two_to_add(64, 32);
    assert(two_to(96) == 0x1_0000_0000_0000_0000_0000_0000);
    lemma_two_to_add(96, 16);
    assert(two_to(112) == 0x1_0000_0000_0000_0000_0000_0000_0000);
    lemma_two_to_add(112, 8);
    assert(two_to(120) == 0x100_0000_0000_0000_0000_0000_0000_0000);
    lemma_two_to_add(120, 7);
}

/// Two to the power `e`, for `e <= 127`.
pub fn two_pow(e: u32) -> (r: u128)
    requires
        e <= 127,
    ensures
        r == two_to(e as nat),
{
    proof {
        lemma_two_to_127();
    }
    let mut r: u128 = 1;
    let mut i: u32 = 0;
    while i < e
        invariant
            i <= e,
            e <= 127,
            r == two_to(i as nat),
            two_to(127) == 0x8000_0000_0000_0000_0000_0000_0000_0000,
        decreases e - i,
    {
        proof {
            lemma_two_to_monotone((i + 1) as nat, 127);
        }
        r = r * 2;
        i += 1;
    }
    r
}

} // verus!
