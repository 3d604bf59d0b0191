//! Decimal text of integers, as written by `itoa`.
use vstd::prelude::*;

verus! {

/// The character of a decimal digit.
pub open spec fn digit_char(d: nat) -> char
    recommends
        d < 10,
{
    (48 + d) as char
}

/// The decimal digits of a natural number, most significant first, without
/// leading zeros (zero is written `0`).
pub open spec fn nat_decimal(n: nat) -> Seq<char>
    decreases n,
{
    if n < 10 {
        seq![digit_char(n)]
    } else {
        nat_decimal(n / 10).push(digit_char(n % 10))
    }
}

/// The decimal text of an integer: a `-` before the digits of a negative one.
pub open spec fn int_decimal(i: int) -> Seq<char> {
    if i < 0 {
        seq!['-'] + nat_decimal((-i) as nat)
    } else {
        nat_decimal(i as nat)
    }
}

/// The value a sequence of decimal digits spells, most significant first.
pub open spec fn digits_value(s: Seq<char>) -> int
    decreases s.len(),
{
    if s.len() == 0 {
        0
    } else {
        digits_value(s.drop_last()) * 10 + (s.last() as int - 48)
    }
}

/// Whether every character is a decimal digit.
pub open spec fn all_digits(s: Seq<char>) -> bool {
    forall|k: int| 0 <= k < s.len() ==> '0' <= #[trigger] s[k] <= '9'
}

/// The digits of a natural number are digits, at least one, without a
/// leading zero unless the number is zero, and spell the number.
pub proof fn lemma_nat_decimal(n: nat)
    ensures
        nat_decimal(n).len() >= 1,
        all_digits(nat_decimal(n)),
        digits_value(nat_decimal(n)) == n,
        n > 0 ==> nat_decimal(n)[0] != '0',
    decreases n,
{
    if n >= 10 {
        lemma_nat_decimal(n / 10);
        let p = nat_decimal(n / 10);
        let d = n % 10;
        assert(digit_char(d) as int == 48 + d);
        assert(nat_decimal(n).drop_last() =~= p);
        assert(nat_decimal(n).last() == digit_char(d));
        assert(nat_decimal(n)[0] == p[0]);
        assert(n == (n / 10) * 10 + n % 10) by (nonlinear_arith);
        assert(digits_value(nat_decimal(n)) == digits_value(p) * 10 + d);
    } else {
        assert(digit_char(n) as int == 48 + n);
        assert(nat_decimal(n).drop_last() =~= Seq::<char>::empty());
        assert(digits_value(nat_decimal(n)) == digits_value(Seq::<char>::empty()) * 10 + n);
    }
}

/// The decimal text of an integer is `-` and the digits of its magnitude
/// when it is negative, and only the digits of its value otherwise: the
/// sign is kept, and the digits spell the magnitude.
pub proof fn lemma_int_decimal(i: int)
    ensures
        i < 0 ==> int_decimal(i).len() >= 2 && int_decimal(i)[0] == '-' && all_digits(
            int_decimal(i).drop_first(),
        ) && digits_value(int_decimal(i).drop_first()) == -i,
        i >= 0 ==> all_digits(int_decimal(i)) && digits_value(int_decimal(i)) == i,
        (int_decimal(i)[0] == '-') <==> i < 0,
{
    if i < 0 {
        lemma_nat_decimal((-i) as nat);
        assert(int_decimal(i).drop_first() =~= nat_decimal((-i) as nat));
    } else {
        lemma_nat_decimal(i as nat);
        assert(int_decimal(i)[0] == nat_decimal(i as nat)[0]);
    }
}

/// `itoa::Buffer::format` on an `i128`: its decimal text.
#[verifier::external_body]
pub(crate) fn format_i128(value: i128) -> (r: String)
    ensures
        r@ == int_decimal(value as int),
{
    itoa::Buffer::new().format(value).to_owned()
}

/// `itoa::Buffer::format` on a `u128`: its decimal text.
#[verifier::external_body]
pub(crate) fn format_u128(value: u128) -> (r: String)
    ensures
        r@ == int_decimal(value as int),
{
    itoa::Buffer::new().format(value).to_owned()
}

} // verus!
