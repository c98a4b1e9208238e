//! Numbers written as text and read from it.

use vstd::prelude::*;

use crate::text::chars_of;

verus! {

/// The decimal digit for `d`.
pub open spec fn digit_char(d: int) -> char {
    if d == 0 {
        '0'
    } else if d == 1 {
        '1'
    } else if d == 2 {
        '2'
    } else if d == 3 {
        '3'
    } else if d == 4 {
        '4'
    } else if d == 5 {
        '5'
    } else if d == 6 {
        '6'
    } else if d == 7 {
        '7'
    } else if d == 8 {
        '8'
    } else {
        '9'
    }
}

/// `n` in decimal notation, without leading zeros.
pub open spec fn decimal_of(n: nat) -> Seq<char>
    decreases n,
{
    if n < 10 {
        seq![digit_char(n as int)]
    } else {
        decimal_of(n / 10).push(digit_char((n % 10) as int))
    }
}

/// `n` in decimal notation, with a minus sign where it is negative.
pub open spec fn decimal_of_int(n: int) -> Seq<char> {
    if n < 0 {
        seq!['-'] + decimal_of((-n) as nat)
    } else {
        decimal_of(n as nat)
    }
}

/// `n` in decimal notation.
pub fn decimal(n: u64) -> (s: String)
    ensures
        s@ == decimal_of(n as nat),
    decreases n,
{
    let d: u64 = n % 10;
    let c = if d == 0 {
        '0'
    } else if d == 1 {
        '1'
    } else if d == 2 {
        '2'
    } else if d == 3 {
        '3'
    } else if d == 4 {
        '4'
    } else if d == 5 {
        '5'
    } else if d == 6 {
        '6'
    } else if d == 7 {
        '7'
    } else if d == 8 {
        '8'
    } else {
        '9'
    };
    let mut s = if n < 10 {
        String::new()
    } else {
        decimal(n / 10)
    };
    s.push(c);
    s
}

/// `n` in decimal notation.
pub fn decimal_i32(n: i32) -> (s: String)
    ensures
        s@ == decimal_of_int(n as int),
{
    if n < 0 {
        let mut s = String::new();
        s.push('-');
        let magnitude: i64 = -(n as i64);
        s.append(decimal(magnitude as u64).as_str());
        s
    } else {
        decimal(n as u64)
    }
}

/// The value of `c` as a digit: `0` to `9`, then the letters in either case.
pub open spec fn digit_value(c: char) -> Option<nat> {
    if '0' <= c <= '9' {
        Some((c as int - '0' as int) as nat)
    } else if 'a' <= c <= 'z' {
        Some((c as int - 'a' as int + 10) as nat)
    } else if 'A' <= c <= 'Z' {
        Some((c as int - 'A' as int + 10) as nat)
    } else {
        None
    }
}

/// The number that the digits of `s` write in base `radix`; `None` where a character is no
/// digit of that base.
pub open spec fn digits_value(s: Seq<char>, radix: nat) -> Option<nat>
    decreases s.len(),
{
    if s.len() == 0 {
        Some(0)
    } else {
        match (digits_value(s.drop_last(), radix), digit_value(s.last())) {
            (Some(high), Some(d)) => if d < radix {
                Some(high * radix + d)
            } else {
                None
            },
            _ => None,
        }
    }
}

/// The number not above `max` that `s` writes in base `radix`: one or more digits, with at
/// most one plus sign before them.
pub open spec fn parsed_number(s: Seq<char>, radix: nat, max: nat) -> Option<nat> {
    let digits = if s.len() > 0 && s[0] == '+' {
        s.drop_first()
    } else {
        s
    };
    match digits_value(digits, radix) {
        Some(n) => if digits.len() > 0 && n <= max {
            Some(n)
        } else {
            None
        },
        None => None,
    }
}

/// The value of `c` as a digit.
fn digit(c: char) -> (d: Option<u64>)
    ensures
        match d {
            Some(n) => digit_value(c) == Some(n as nat) && n < 36,
            None => digit_value(c) is None,
        },
{
    if '0' <= c && c <= '9' {
        Some((c as u32 - '0' as u32) as u64)
    } else if 'a' <= c && c <= 'z' {
        Some((c as u32 - 'a' as u32 + 10) as u64)
    } else if 'A' <= c && c <= 'Z' {
        Some((c as u32 - 'A' as u32 + 10) as u64)
    } else {
        None
    }
}

/// Digits at the end never make a number smaller.
proof fn lemma_digits_value_grows(s: Seq<char>, radix: nat, n: int)
    requires
        radix > 0,
        0 <= n <= s.len(),
    ensures
        digits_value(s, radix) is Some ==> digits_value(s.take(n), radix) is Some
            && digits_value(s.take(n), radix)->0 <= digits_value(s, radix)->0,
    decreases s.len(),
{
    if n == s.len() {
        assert(s.take(n) == s);
    } else {
        lemma_digits_value_grows(s.drop_last(), radix, n);
        assert(s.drop_last().take(n) == s.take(n));
        if digits_value(s.drop_last(), radix) is Some {
            let high = digits_value(s.drop_last(), radix)->0;
            assert(high <= high * radix) by (nonlinear_arith)
                requires
                    radix > 0,
            ;
        }
    }
}

/// The number not above `max` that `s` writes in base `radix`.
pub fn parse_number(s: &str, radix: u64, max: u64) -> (r: Option<u64>)
    requires
        2 <= radix <= 36,
    ensures
        match r {
            Some(n) => parsed_number(s@, radix as nat, max as nat) == Some(n as nat),
            None => parsed_number(s@, radix as nat, max as nat) is None,
        },
{
    let v = chars_of(s);
    let first: usize = if v.len() > 0 && v[0] == '+' {
        1
    } else {
        0
    };
    let ghost digits = v@.skip(first as int);
    assert(digits == if s@.len() > 0 && s@[0] == '+' {
        s@.drop_first()
    } else {
        s@
    });
    let mut total: u64 = 0;
    let mut i: usize = first;
    assert(digits.take(0) == Seq::<char>::empty());
    while i < v.len()
        invariant
            2 <= radix <= 36,
            first <= i <= v@.len(),
            digits == v@.skip(first as int),
            digits == (if s@.len() > 0 && s@[0] == '+' {
                s@.drop_first()
            } else {
                s@
            }),
            total <= max,
            digits_value(digits.take(i - first), radix as nat) == Some(total as nat),
        decreases v@.len() - i,
    {
        let ghost next = digits.take(i - first + 1);
        proof {
            assert(next.drop_last() == digits.take(i - first));
            assert(next.last() == v@[i as int]);
            lemma_digits_value_grows(digits, radix as nat, i - first + 1);
        }
        let d: u64 = match digit(v[i]) {
            Some(d) => d,
            None => {
                return None;
            },
        };
        if d >= radix {
            return None;
        }
        assert(0 <= total * radix <= 0xffff_ffff_ffff_ffff * 36) by (nonlinear_arith)
            requires
                0 <= total <= 0xffff_ffff_ffff_ffff,
                0 <= radix <= 36,
        ;
        let grown: u128 = total as u128 * radix as u128 + d as u128;
        if grown > max as u128 {
            return None;
        }
        total = grown as u64;
        i += 1;
    }
    assert(digits.take(i - first) == digits);
    if first == v.len() {
        return None;
    }
    Some(total)
}

/// Writing a number in decimal and reading it back gives the number.
pub proof fn law_decimal_reads_back(n: nat, max: nat)
    requires
        n <= max,
    ensures
        parsed_number(decimal_of(n), 10, max) == Some(n),
{
    lemma_decimal_value(n);
    let s = decimal_of(n);
    assert(digit_value(s[0]) is Some);
}

proof fn lemma_decimal_value(n: nat)
    ensures
        decimal_of(n).len() > 0,
        digit_value(decimal_of(n)[0]) is Some,
        digits_value(decimal_of(n), 10) == Some(n),
    decreases n,
{
    let s = decimal_of(n);
    if n < 10 {
        reveal_with_fuel(digits_value, 2);
        assert(s.drop_last() == Seq::<char>::empty());
    } else {
        lemma_decimal_value(n / 10);
        assert(s.drop_last() == decimal_of(n / 10));
        assert(s[0] == decimal_of(n / 10)[0]);
    }
}

} // verus!
