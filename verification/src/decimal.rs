use vstd::prelude::*;
use vstd::arithmetic::power::{lemma_pow_positive, pow};
use std::str::FromStr;

verus! {

/// How two decimal numbers compare.
#[derive(Debug, Clone, Copy, PartialEq, Eq, Structural)]
pub enum DecimalOrder {
    Less,
    Equal,
    Greater,
}

/// Names what `BigDecimal::from_str` makes of a text: the integer `m` and the scale `s` of
/// the parsed number, whose value is `m * 10^(-s)`; `None` where the text does not parse.
pub uninterp spec fn decimal_parts(text: Seq<char>) -> Option<(int, int)>;

/// Numerator of the value `m * 10^(-s)` written as a fraction with a positive denominator.
pub open spec fn decimal_numerator(d: (int, int)) -> int {
    if d.1 >= 0 {
        d.0
    } else {
        d.0 * pow(10, (-d.1) as nat)
    }
}

/// Denominator of the value `m * 10^(-s)` written as a fraction.
pub open spec fn decimal_denominator(d: (int, int)) -> int {
    if d.1 >= 0 {
        pow(10, d.1 as nat)
    } else {
        1
    }
}

/// The number `a` is smaller than the number `b`.
pub open spec fn decimal_less(a: (int, int), b: (int, int)) -> bool {
    decimal_numerator(a) * decimal_denominator(b) < decimal_numerator(b) * decimal_denominator(a)
}

/// How the number `a` compares with the number `b`.
pub open spec fn decimal_order(a: (int, int), b: (int, int)) -> DecimalOrder {
    if decimal_less(a, b) {
        DecimalOrder::Less
    } else if decimal_less(b, a) {
        DecimalOrder::Greater
    } else {
        DecimalOrder::Equal
    }
}

/// Parses both texts with `BigDecimal::from_str` and, where both parse, compares the two
/// numbers with `BigDecimal`'s `Ord::cmp`, which orders them by value. The parse results are
/// named `decimal_parts`.
#[verifier::external_body]
fn compare_decimal_texts(a: &str, b: &str) -> (r: Option<DecimalOrder>)
    ensures
        r is Some <==> (decimal_parts(a@) is Some && decimal_parts(b@) is Some),
        r matches Some(o) ==> o == decimal_order(
            decimal_parts(a@).unwrap(),
            decimal_parts(b@).unwrap(),
        ),
{
    match (bigdecimal::BigDecimal::from_str(a), bigdecimal::BigDecimal::from_str(b)) {
        (Ok(x), Ok(y)) => Some(
            match x.cmp(&y) {
                core::cmp::Ordering::Less => DecimalOrder::Less,
                core::cmp::Ordering::Equal => DecimalOrder::Equal,
                core::cmp::Ordering::Greater => DecimalOrder::Greater,
            },
        ),
        _ => None,
    }
}

/// Whether a text is a decimal number that `BigDecimal` reads.
pub fn is_decimal_text(text: &str) -> (r: bool)
    ensures
        r == decimal_parts(text@) is Some,
{
    compare_decimal_texts(text, text).is_some()
}

/// Compares two decimal texts by value; `None` where either is not a decimal number.
pub fn compare_decimals(a: &str, b: &str) -> (r: Option<DecimalOrder>)
    ensures
        r is Some <==> (decimal_parts(a@) is Some && decimal_parts(b@) is Some),
        r matches Some(o) ==> o == decimal_order(
            decimal_parts(a@).unwrap(),
            decimal_parts(b@).unwrap(),
        ),
{
    compare_decimal_texts(a, b)
}

/// The denominator of a decimal number is positive.
pub proof fn lemma_denominator_positive(d: (int, int))
    ensures
        decimal_denominator(d) > 0,
{
    if d.1 >= 0 {
        lemma_pow_positive(10, d.1 as nat);
    }
}

proof fn lemma_cross_le_transitive(na: int, da: int, nb: int, db: int, nc: int, dc: int)
    by (nonlinear_arith)
    requires
        da > 0,
        db > 0,
        dc > 0,
        na * db <= nb * da,
        nb * dc <= nc * db,
    ensures
        na * dc <= nc * da,
{
    assert(na * db * dc <= nb * da * dc);
    assert(nb * dc * da <= nc * db * da);
    assert(na * dc * db <= nc * da * db);
}

/// "Not larger than" between decimal numbers is transitive.
pub proof fn lemma_decimal_le_transitive(a: (int, int), b: (int, int), c: (int, int))
    requires
        !decimal_less(b, a),
        !decimal_less(c, b),
    ensures
        !decimal_less(c, a),
{
    lemma_denominator_positive(a);
    lemma_denominator_positive(b);
    lemma_denominator_positive(c);
    lemma_cross_le_transitive(
        decimal_numerator(a),
        decimal_denominator(a),
        decimal_numerator(b),
        decimal_denominator(b),
        decimal_numerator(c),
        decimal_denominator(c),
    );
}

proof fn lemma_scaled_less(m: int, n: int, d: int)
    by (nonlinear_arith)
    requires
        d > 0,
    ensures
        m * d < n * d <==> m < n,
{
}

/// At the same scale, the number with the smaller integer is the smaller number.
pub proof fn lemma_decimal_less_same_scale(m: int, n: int, s: int)
    ensures
        decimal_less((m, s), (n, s)) <==> m < n,
{
    lemma_denominator_positive((m, s));
    if s >= 0 {
        lemma_scaled_less(m, n, decimal_denominator((m, s)));
    } else {
        lemma_pow_positive(10, (-s) as nat);
        let p = pow(10, (-s) as nat);
        lemma_scaled_less(m, n, p);
        assert(decimal_numerator((m, s)) * decimal_denominator((n, s)) == m * p);
        assert(decimal_numerator((n, s)) * decimal_denominator((m, s)) == n * p);
    }
}

} // verus!
