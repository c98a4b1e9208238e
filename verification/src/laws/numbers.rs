//! Numbers: how digits make a number, and how a number is written.

use vstd::prelude::*;

use crate::numbers::{decimal_of, decimal_of_int, digit_char, digits_value, parsed_number};

verus! {

/// The digit that a character stands for, -1 where it is none: the ten digits, then the letters
/// in either case.
pub open spec fn digit_of(c: char) -> int {
    let n = c as int;
    if 48 <= n <= 57 {
        n - 48
    } else if 65 <= n <= 90 {
        n - 55
    } else if 97 <= n <= 122 {
        n - 87
    } else {
        -1
    }
}

/// A text of one digit below the radix is that digit, if it is allowed; one of another character
/// is no number.
pub proof fn law_single_digit_is_its_value(c: char, radix: nat, max: nat)
    ensures
        0 <= digit_of(c) < radix && digit_of(c) <= max ==> parsed_number(seq![c], radix, max)
            == Some(digit_of(c) as nat),
        !(0 <= digit_of(c) < radix && digit_of(c) <= max) ==> parsed_number(seq![c], radix, max)
            is None,
{
    reveal_with_fuel(digits_value, 2);
    assert(seq![c].drop_last() =~= Seq::<char>::empty());
    assert(seq![c].last() == c);
    assert(seq![c].drop_first() =~= Seq::<char>::empty());
    assert(0 * radix == 0) by (nonlinear_arith);
    assert(digits_value(seq![c].drop_last(), radix) == Some(0nat));
}

/// One more digit multiplies by the radix and adds its value. The longer text is a number exactly
/// where the shorter one is, the digit is below the radix and the result is allowed.
pub proof fn law_further_digit_shifts(s: Seq<char>, c: char, radix: nat, max: nat, v: nat)
    requires
        s.len() > 0,
        s != seq!['+'],
        radix >= 1,
    ensures
        parsed_number(s.push(c), radix, max) == Some(v) <==> {
            &&& 0 <= digit_of(c) < radix
            &&& parsed_number(s, radix, max) is Some
            &&& v == parsed_number(s, radix, max)->0 * radix + digit_of(c)
            &&& v <= max
        },
{
    let longer = s.push(c);
    let short = if s[0] == '+' {
        s.drop_first()
    } else {
        s
    };
    let long = if longer[0] == '+' {
        longer.drop_first()
    } else {
        longer
    };
    if s[0] == '+' {
        assert(s.len() > 1) by {
            if s.len() == 1 {
                assert(s =~= seq!['+']);
            }
        }
    }
    assert(long =~= short.push(c));
    assert(long.drop_last() =~= short);
    if digits_value(short, radix) is Some {
        let h = digits_value(short, radix)->0;
        assert(h <= h * radix) by (nonlinear_arith)
            requires
                radix >= 1,
        ;
    }
}

/// A leading plus sign makes no difference, but only one may stand there, and it is no number by
/// itself; neither is the empty text.
pub proof fn law_plus_sign_may_lead(s: Seq<char>, radix: nat, max: nat)
    requires
        radix <= 36,
    ensures
        parsed_number(Seq::empty(), radix, max) is None,
        s.len() == 0 || s[0] == '+' ==> parsed_number(seq!['+'] + s, radix, max) is None,
        s.len() > 0 && s[0] != '+' ==> parsed_number(seq!['+'] + s, radix, max) == parsed_number(
            s,
            radix,
            max,
        ),
{
    let signed = seq!['+'] + s;
    assert(signed[0] == '+');
    assert(signed.drop_first() =~= s);
    if s.len() > 0 && s[0] == '+' {
        lemma_foreign_character(s, radix, 0);
    }
}

proof fn lemma_foreign_character(s: Seq<char>, radix: nat, at: int)
    requires
        0 <= at < s.len(),
        !(0 <= digit_of(s[at]) < radix),
    ensures
        digits_value(s, radix) is None,
    decreases s.len(),
{
    if at < s.len() - 1 {
        lemma_foreign_character(s.drop_last(), radix, at);
    }
}

/// A text with a character that is no digit below the radix, a leading plus sign aside, is no
/// number.
pub proof fn law_foreign_character_spoils_a_number(s: Seq<char>, radix: nat, max: nat, at: int)
    requires
        0 <= at < s.len(),
        !(0 <= digit_of(s[at]) < radix),
        at > 0 || s[0] != '+',
    ensures
        parsed_number(s, radix, max) is None,
{
    if s[0] == '+' {
        assert(s.drop_first()[at - 1] == s[at]);
        lemma_foreign_character(s.drop_first(), radix, at - 1);
    } else {
        lemma_foreign_character(s, radix, at);
    }
}

/// In decimal a number below ten is its digit; a greater one is what stands before its last digit,
/// then that digit.
pub proof fn law_decimal_grows_by_digits(high: nat, d: nat)
    requires
        d < 10,
    ensures
        decimal_of(d).len() == 1,
        decimal_of(d)[0] as int == 48 + d,
        high > 0 ==> decimal_of(10 * high + d) == decimal_of(high) + decimal_of(d),
{
    let n = 10 * high + d;
    assert(n / 10 == high && n % 10 == d);
    if high > 0 {
        assert(decimal_of(n) =~= decimal_of(high).push(digit_char(d as int)));
        assert(decimal_of(high).push(digit_char(d as int)) =~= decimal_of(high) + decimal_of(d));
    }
}

/// In decimal a number is made of digits alone, and only zero begins with a zero.
pub proof fn law_decimal_is_made_of_digits(n: nat)
    ensures
        decimal_of(n).len() > 0,
        forall|i: int| 0 <= i < decimal_of(n).len() ==> 48 <= #[trigger] decimal_of(n)[i] as int <= 57,
        n > 0 ==> decimal_of(n)[0] != '0',
    decreases n,
{
    if n >= 10 {
        law_decimal_is_made_of_digits(n / 10);
        assert(decimal_of(n) == decimal_of(n / 10).push(digit_char((n % 10) as int)));
    }
}

/// A negative number is written as its opposite behind a minus sign, and any other as it is.
pub proof fn law_only_negative_numbers_have_a_sign(n: nat)
    ensures
        decimal_of_int(n as int) == decimal_of(n),
        n > 0 ==> decimal_of_int(-n) == seq!['-'] + decimal_of(n),
{
}

} // verus!
