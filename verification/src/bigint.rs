use crate::strings::int_dec_str;
use crate::value::CmpResult;
use vstd::prelude::*;

verus! {

// The arbitrary-precision integer of the `num_bigint` crate. Fixed-width
// arithmetic that would overflow promotes into this type. Verified code
// sees a `BigInt` only through `big_value` and the wrappers below.
#[verifier::external_type_specification]
#[verifier::external_body]
pub struct ExBigInt(num_bigint::BigInt);

/// The mathematical integer a `num_bigint::BigInt` holds.
pub uninterp spec fn big_value(b: num_bigint::BigInt) -> int;

/// Relies on `<num_bigint::BigInt as From<i64>>::from`: exact conversion.
#[verifier::external_body]
pub(crate) fn big_from_i64(x: i64) -> (r: num_bigint::BigInt)
    ensures
        big_value(r) == x as int,
{
    num_bigint::BigInt::from(x)
}

/// Relies on `<num_bigint::BigInt as From<u64>>::from`: exact conversion.
#[verifier::external_body]
pub(crate) fn big_from_u64(x: u64) -> (r: num_bigint::BigInt)
    ensures
        big_value(r) == x as int,
{
    num_bigint::BigInt::from(x)
}

/// Relies on `<num_bigint::BigInt as From<usize>>::from`: exact conversion.
#[verifier::external_body]
pub(crate) fn big_from_usize(x: usize) -> (r: num_bigint::BigInt)
    ensures
        big_value(r) == x as int,
{
    num_bigint::BigInt::from(x)
}

/// Relies on `<&num_bigint::BigInt as Add>::add`: exact integer addition.
#[verifier::external_body]
pub(crate) fn big_add(a: &num_bigint::BigInt, b: &num_bigint::BigInt) -> (r: num_bigint::BigInt)
    ensures
        big_value(r) == big_value(*a) + big_value(*b),
{
    a + b
}

/// Relies on `<&num_bigint::BigInt as Mul>::mul`: exact integer multiplication.
#[verifier::external_body]
pub(crate) fn big_mul(a: &num_bigint::BigInt, b: &num_bigint::BigInt) -> (r: num_bigint::BigInt)
    ensures
        big_value(r) == big_value(*a) * big_value(*b),
{
    a * b
}

/// Relies on `<num_bigint::BigInt as Ord>::cmp`: numeric order.
#[verifier::external_body]
pub(crate) fn big_cmp(a: &num_bigint::BigInt, b: &num_bigint::BigInt) -> (r: CmpResult)
    ensures
        r == CmpResult::Less <==> big_value(*a) < big_value(*b),
        r == CmpResult::Equal <==> big_value(*a) == big_value(*b),
        r == CmpResult::Greater <==> big_value(*a) > big_value(*b),
{
    match a.cmp(b) {
        core::cmp::Ordering::Less => CmpResult::Less,
        core::cmp::Ordering::Equal => CmpResult::Equal,
        core::cmp::Ordering::Greater => CmpResult::Greater,
    }
}

/// Relies on `<num_bigint::BigInt as PartialEq>::eq`: numeric equality.
#[verifier::external_body]
pub(crate) fn big_eq(a: &num_bigint::BigInt, b: &num_bigint::BigInt) -> (r: bool)
    ensures
        r == (big_value(*a) == big_value(*b)),
{
    a == b
}

/// The numeric value of one digit character under `radix`, where letters
/// carry the values ten to thirty-five in either case.
pub open spec fn radix_digit_val(c: char, radix: int) -> Option<int> {
    let u = c as u32;
    let v: int = if '0' as u32 <= u && u <= '9' as u32 {
        u - '0' as u32
    } else if 'a' as u32 <= u && u <= 'z' as u32 {
        u - 'a' as u32 + 10
    } else if 'A' as u32 <= u && u <= 'Z' as u32 {
        u - 'A' as u32 + 10
    } else {
        -1
    };
    if 0 <= v < radix {
        Some(v)
    } else {
        None
    }
}

/// One leading plus sign is dropped, unless it is doubled.
pub open spec fn strip_plus(s: Seq<char>) -> Seq<char> {
    if s.len() > 0 && s[0] == '+' && !(s.len() > 1 && s[1] == '+') {
        s.drop_first()
    } else {
        s
    }
}

/// Whether the string starts with a minus sign that the parser strips.
pub open spec fn has_minus(s: Seq<char>) -> bool {
    s.len() > 0 && s[0] == '-'
}

/// The digit body the parser reads: one leading minus is dropped (unless
/// followed by a plus, which poisons the body), then one leading plus.
pub open spec fn radix_body(s: Seq<char>) -> Seq<char> {
    if s.len() > 0 && s[0] == '-' && !(s.len() > 1 && s[1] == '+') {
        strip_plus(s.drop_first())
    } else if s.len() > 0 && s[0] == '-' {
        s
    } else {
        strip_plus(s)
    }
}

/// A valid digit body: non-empty, not starting with an underscore, every
/// character a digit of the radix or a skipped underscore.
pub open spec fn valid_radix_body(s: Seq<char>, radix: int) -> bool {
    &&& s.len() > 0
    &&& s[0] != '_'
    &&& forall|i: int|
        0 <= i < s.len() ==> (s[i] == '_' || radix_digit_val(#[trigger] s[i], radix) is Some)
}

/// The magnitude of a digit body, underscores skipped.
pub open spec fn radix_body_value(s: Seq<char>, radix: int) -> int
    decreases s.len(),
{
    if s.len() == 0 {
        0
    } else {
        let rest = radix_body_value(s.drop_last(), radix);
        match radix_digit_val(s.last(), radix) {
            Some(d) => rest * radix + d,
            None => rest,
        }
    }
}

/// The integer a radix string parses to: an optional sign, then digits with
/// interior underscores allowed.
pub open spec fn parse_radix(s: Seq<char>, radix: int) -> Option<int> {
    let body = radix_body(s);
    if valid_radix_body(body, radix) {
        Some(
            if has_minus(s) {
                -radix_body_value(body, radix)
            } else {
                radix_body_value(body, radix)
            },
        )
    } else {
        None
    }
}

/// Relies on `<num_bigint::BigInt as num_traits::Num>::from_str_radix`: an
/// optional sign (one `-`, then one `+` unless doubled), then at least one
/// digit of the radix, with interior underscores skipped; anything else is
/// an error. Panics for a radix outside two to thirty-six, so that range is
/// required.
#[verifier::external_body]
pub(crate) fn big_from_str_radix(s: &str, radix: u32) -> (r: Option<num_bigint::BigInt>)
    requires
        2 <= radix <= 36,
    ensures
        match r {
            Some(b) => parse_radix(s@, radix as int) == Some(big_value(b)),
            None => parse_radix(s@, radix as int) is None,
        },
{
    match <num_bigint::BigInt as num_traits::Num>::from_str_radix(s, radix) {
        Ok(b) => Some(b),
        Err(_) => None,
    }
}

/// Relies on `<num_bigint::BigInt as fmt::Display>` (through `to_string`):
/// the canonical decimal rendering, a `-` sign for negative values and no
/// leading zeros.
#[verifier::external_body]
pub(crate) fn big_to_dec_string(a: &num_bigint::BigInt) -> (r: String)
    ensures
        r@ == int_dec_str(big_value(*a)),
{
    a.to_string()
}

/// Relies on `<num_bigint::BigInt as Clone>::clone`: the copy holds the same
/// integer.
#[verifier::external_body]
pub(crate) fn big_clone(a: &num_bigint::BigInt) -> (r: num_bigint::BigInt)
    ensures
        big_value(r) == big_value(*a),
{
    a.clone()
}

} // verus!
