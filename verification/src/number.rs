//! Numbers are IEEE-754 binary64 values, held by their bit pattern.
//!
//! What can be read off the bits (sign, ordering, equality, conversion from and
//! to lengths and indices) is decided here; arithmetic proper is supplied by the
//! embedder.
use vstd::prelude::*;

verus! {

/// The sign bit of a pattern.
pub const SIGN: u64 = 0x8000_0000_0000_0000;

/// The pattern of positive infinity: every larger magnitude is a NaN.
pub const INFINITY: u64 = 0x7FF0_0000_0000_0000;

/// Two to the power 52: the weight of the hidden bit of a significand.
pub const HIDDEN: u64 = 0x0010_0000_0000_0000;

/// Whether the sign bit is set.
pub open spec fn sign_set(bits: u64) -> bool {
    bits >= SIGN
}

/// The pattern without its sign bit.
pub open spec fn magnitude(bits: u64) -> u64 {
    if bits >= SIGN {
        (bits - SIGN) as u64
    } else {
        bits
    }
}

/// Whether the pattern is a NaN.
pub open spec fn is_nan(bits: u64) -> bool {
    magnitude(bits) > INFINITY
}

/// Whether the pattern is positive or negative zero.
pub open spec fn is_zero(bits: u64) -> bool {
    magnitude(bits) == 0
}

/// The place of a non-NaN pattern on the number line: patterns compare as
/// their keys do, and both zeros share the key 0.
pub open spec fn order_key(bits: u64) -> int {
    if sign_set(bits) {
        -(magnitude(bits) as int)
    } else {
        magnitude(bits) as int
    }
}

/// Numeric equality: NaN equals nothing, and the two zeros are equal.
pub open spec fn num_eq(a: u64, b: u64) -> bool {
    !is_nan(a) && !is_nan(b) && order_key(a) == order_key(b)
}

/// Numeric `<`: false whenever a NaN is involved.
pub open spec fn num_less(a: u64, b: u64) -> bool {
    !is_nan(a) && !is_nan(b) && order_key(a) < order_key(b)
}

/// Numeric `<=`: false whenever a NaN is involved.
pub open spec fn num_less_eq(a: u64, b: u64) -> bool {
    !is_nan(a) && !is_nan(b) && order_key(a) <= order_key(b)
}

/// The pattern with its sign bit flipped.
pub open spec fn negated(bits: u64) -> u64 {
    if bits >= SIGN {
        (bits - SIGN) as u64
    } else {
        (bits + SIGN) as u64
    }
}

/// `x` halved `times` times, rounding down each time.
pub open spec fn halved(x: nat, times: nat) -> nat
    decreases times,
{
    if times == 0 {
        x
    } else {
        halved(x / 2, (times - 1) as nat)
    }
}

/// `x` doubled `times` times.
pub open spec fn doubled(x: nat, times: nat) -> nat
    decreases times,
{
    if times == 0 {
        x
    } else {
        doubled(x * 2, (times - 1) as nat)
    }
}

/// The biased exponent field of a pattern.
pub open spec fn exponent(bits: u64) -> nat {
    (magnitude(bits) / HIDDEN) as nat
}

/// The significand of a normal pattern, hidden bit included.
pub open spec fn significand(bits: u64) -> nat {
    (HIDDEN + magnitude(bits) % HIDDEN) as nat
}

/// The integer part of the magnitude of a pattern that is not a NaN.
pub open spec fn integer_part(bits: u64) -> nat {
    let e = exponent(bits);
    if e < 1023 {
        0
    } else if e <= 1075 {
        halved(significand(bits), (1075 - e) as nat)
    } else {
        doubled(significand(bits), (e - 1075) as nat)
    }
}

/// The integer part of the magnitude of a number, capped at the largest
/// index; 0 for a NaN.
pub open spec fn capped_part(bits: u64) -> usize {
    if is_nan(bits) {
        0
    } else if integer_part(bits) > usize::MAX {
        usize::MAX
    } else {
        integer_part(bits) as usize
    }
}

/// The index that a number names: its integer part, where that is an index.
/// A NaN names none, nor does a number below zero whose integer part is not
/// zero, nor one whose integer part is not below the largest length there
/// is, which no index reaches.
pub open spec fn index_of(bits: u64) -> Option<usize> {
    if is_nan(bits) {
        None
    } else if sign_set(bits) && integer_part(bits) != 0 {
        None
    } else if integer_part(bits) >= usize::MAX {
        None
    } else {
        Some(integer_part(bits) as usize)
    }
}

/// A significand doubled until its hidden bit is set, with the exponent
/// lowered in step.
pub open spec fn raised(sig: nat, exp: nat) -> (nat, nat)
    decreases exp,
{
    if sig >= HIDDEN || exp <= 1 {
        (sig, exp)
    } else {
        raised(sig * 2, (exp - 1) as nat)
    }
}

/// The divisor, a power of two, that brings `n` below two to the power 53,
/// with the exponent raised in step.
pub open spec fn lowering(n: nat, divisor: nat, exp: nat) -> (nat, nat)
    decreases 1200 - exp,
{
    if divisor == 0 || n / divisor < 2 * HIDDEN || exp >= 1200 {
        (divisor, exp)
    } else {
        lowering(n, divisor * 2, exp + 1)
    }
}

/// `n` divided by `divisor`, rounded to the nearest integer, ties to even.
pub open spec fn rounded(n: nat, divisor: nat) -> nat {
    let q = n / divisor;
    let r = n % divisor;
    if 2 * r > divisor || (2 * r == divisor && q % 2 == 1) {
        q + 1
    } else {
        q
    }
}

/// The pattern of the number nearest to the integer `n` (ties to even).
pub open spec fn number_of(n: nat) -> nat {
    if n == 0 {
        0
    } else if n < 2 * HIDDEN {
        let (sig, exp) = raised(n, 1075);
        ((exp - 1) * HIDDEN + sig) as nat
    } else {
        let (divisor, exp) = lowering(n, 1, 1075);
        ((exp - 1) * HIDDEN + rounded(n, divisor)) as nat
    }
}

/// `x` halved `times` times, where it is even each time.
pub open spec fn halved_exactly(x: nat, times: nat) -> Option<nat>
    decreases times,
{
    if times == 0 {
        Some(x)
    } else if x % 2 != 0 {
        None
    } else {
        halved_exactly(x / 2, (times - 1) as nat)
    }
}

/// The magnitude of a pattern as an integer, where the pattern is a whole
/// number below two to the power 63 in magnitude.
pub open spec fn whole_of(bits: u64) -> Option<nat> {
    let e = exponent(bits);
    if magnitude(bits) == 0 {
        Some(0)
    } else if magnitude(bits) >= INFINITY || e < 1023 {
        None
    } else if e <= 1075 {
        halved_exactly(significand(bits), (1075 - e) as nat)
    } else if e <= 1085 {
        Some(doubled(significand(bits), (e - 1075) as nat))
    } else {
        None
    }
}

/// Whether `bits` is a NaN.
pub fn nan(bits: u64) -> (r: bool)
    ensures
        r == is_nan(bits),
{
    let m = if bits >= SIGN { bits - SIGN } else { bits };
    m > INFINITY
}

/// Whether `bits` is one of the two zeros.
pub fn zero(bits: u64) -> (r: bool)
    ensures
        r == is_zero(bits),
{
    bits == 0 || bits == SIGN
}

/// Whether `bits` is a number strictly above zero.
pub fn positive(bits: u64) -> (r: bool)
    ensures
        r == num_less(0, bits),
{
    0 < bits && bits <= INFINITY
}

/// Whether `bits` is a number strictly below zero.
pub fn negative(bits: u64) -> (r: bool)
    ensures
        r == num_less(bits, 0),
{
    SIGN < bits && bits - SIGN <= INFINITY
}

/// Numeric equality of two patterns.
pub fn equal(a: u64, b: u64) -> (r: bool)
    ensures
        r == num_eq(a, b),
{
    if nan(a) || nan(b) {
        false
    } else {
        a == b || (zero(a) && zero(b))
    }
}

/// Numeric `<` of two patterns.
pub fn less(a: u64, b: u64) -> (r: bool)
    ensures
        r == num_less(a, b),
{
    if nan(a) || nan(b) {
        false
    } else if a >= SIGN {
        if b >= SIGN {
            b < a
        } else {
            !(a == SIGN && b == 0)
        }
    } else {
        b < SIGN && a < b
    }
}

/// Numeric `<=` of two patterns.
pub fn less_eq(a: u64, b: u64) -> (r: bool)
    ensures
        r == num_less_eq(a, b),
{
    if nan(a) || nan(b) {
        false
    } else {
        !less(b, a)
    }
}

/// The pattern of `-x` for the pattern of `x`.
pub fn negate(bits: u64) -> (r: u64)
    ensures
        r == negated(bits),
{
    if bits >= SIGN {
        bits - SIGN
    } else {
        bits + SIGN
    }
}

proof fn doubled_grows(x: nat, times: nat)
    ensures
        doubled(x, times) >= x,
    decreases times,
{
    if times > 0 {
        doubled_grows(x * 2, (times - 1) as nat);
    }
}

proof fn doubled_split(x: nat, a: nat, b: nat)
    ensures
        doubled(x, a + b) == doubled(doubled(x, a), b),
    decreases a,
{
    if a > 0 {
        doubled_split(x * 2, (a - 1) as nat, b);
    }
}

proof fn doubled_is_bounded(x: nat, times: nat)
    requires
        x < 2 * HIDDEN,
        times <= 10,
    ensures
        doubled(x, times) < 0x8000_0000_0000_0000,
    decreases times,
{
    assert(doubled(x, times) <= x * 1024) by {
        doubled_at_most(x, times);
    }
}

proof fn doubled_at_most(x: nat, times: nat)
    requires
        times <= 10,
    ensures
        doubled(x, times) <= x * 1024,
{
    reveal_with_fuel(doubled, 11);
}

proof fn doubled_eleven(times: nat)
    requires
        times >= 11,
    ensures
        doubled(1, times) >= 2048,
{
    assert(doubled(1, 11) == 2048) by {
        reveal_with_fuel(doubled, 12);
    }
    doubled_split(1, 11, (times - 11) as nat);
    doubled_grows(2048, (times - 11) as nat);
}

/// The magnitude of `bits` as an integer, where `bits` is a whole number
/// below two to the power 63 in magnitude.
pub fn whole_magnitude(bits: u64) -> (r: Option<u64>)
    ensures
        match r {
            Some(m) => whole_of(bits) == Some(m as nat) && m < 0x8000_0000_0000_0000,
            None => whole_of(bits) is None,
        },
{
    let m = if bits >= SIGN {
        bits - SIGN
    } else {
        bits
    };
    if m == 0 {
        return Some(0);
    }
    if m >= INFINITY {
        return None;
    }
    let e: u64 = m / HIDDEN;
    let mut x: u64 = HIDDEN + m % HIDDEN;
    if e < 1023 {
        return None;
    }
    if e <= 1075 {
        let mut left: u64 = 1075 - e;
        while left > 0
            invariant
                x < 2 * HIDDEN,
                halved_exactly(x as nat, left as nat) == whole_of(bits),
            decreases left,
        {
            if x % 2 != 0 {
                return None;
            }
            x = x / 2;
            left = left - 1;
        }
        Some(x)
    } else if e <= 1085 {
        let mut left: u64 = e - 1075;
        proof {
            doubled_is_bounded(x as nat, left as nat);
        }
        while left > 0
            invariant
                left <= 10,
                x < 0x8000_0000_0000_0000,
                doubled(x as nat, left as nat) < 0x8000_0000_0000_0000,
                Some(doubled(x as nat, left as nat)) == whole_of(bits),
            decreases left,
        {
            proof {
                doubled_grows((x * 2) as nat, (left - 1) as nat);
            }
            x = x * 2;
            left = left - 1;
        }
        Some(x)
    } else {
        None
    }
}

/// The integer part of the magnitude of `bits`, capped at the largest index.
pub fn capped(bits: u64) -> (r: usize)
    ensures
        r == capped_part(bits),
{
    let m = if bits >= SIGN {
        bits - SIGN
    } else {
        bits
    };
    if m > INFINITY {
        return 0;
    }
    let e: u64 = m / HIDDEN;
    let mut x: u64 = HIDDEN + m % HIDDEN;
    if e < 1023 {
        return 0;
    }
    if e <= 1075 {
        let mut left: u64 = 1075 - e;
        while left > 0
            invariant
                halved(x as nat, left as nat) == integer_part(bits),
            decreases left,
        {
            x = x / 2;
            left = left - 1;
        }
    } else {
        let mut left: u64 = e - 1075;
        while left > 0
            invariant
                !is_nan(bits),
                doubled(x as nat, left as nat) == integer_part(bits),
            decreases left,
        {
            if x > (usize::MAX as u64) / 2 {
                proof {
                    doubled_grows((x * 2) as nat, (left - 1) as nat);
                    assert(x * 2 > usize::MAX);
                    assert(integer_part(bits) > usize::MAX);
                }
                return usize::MAX;
            }
            x = x * 2;
            left = left - 1;
        }
    }
    if x > usize::MAX as u64 {
        usize::MAX
    } else {
        x as usize
    }
}

/// The index that `bits` names, if it names one.
pub fn to_index(bits: u64) -> (r: Option<usize>)
    ensures
        r == index_of(bits),
{
    if nan(bits) {
        return None;
    }
    let part = capped(bits);
    if bits >= SIGN && part != 0 {
        None
    } else if part == usize::MAX {
        None
    } else {
        Some(part)
    }
}

/// The pattern of the number nearest to `n`.
pub fn from_len(n: usize) -> (r: u64)
    ensures
        r == number_of(n as nat),
{
    if n == 0 {
        return 0;
    }
    let v: u64 = n as u64;
    if v < 2 * HIDDEN {
        let mut sig: u64 = v;
        let mut exp: u64 = 1075;
        while sig < HIDDEN && exp > 1
            invariant
                0 < sig < 2 * HIDDEN,
                1 <= exp <= 1075,
                raised(sig as nat, exp as nat) == raised(v as nat, 1075),
            decreases exp,
        {
            sig = sig * 2;
            exp = exp - 1;
        }
        (exp - 1) * HIDDEN + sig
    } else {
        let mut divisor: u64 = 1;
        let mut exp: u64 = 1075;
        while v / divisor >= 2 * HIDDEN
            invariant
                0 < divisor <= 4096,
                1075 <= exp <= 1086,
                divisor == doubled(1, (exp - 1075) as nat),
                lowering(v as nat, divisor as nat, exp as nat) == lowering(v as nat, 1, 1075),
            decreases 1200 - exp,
        {
            assert(divisor < 2048) by (nonlinear_arith)
                requires
                    divisor > 0,
                    v / divisor >= 9007199254740992,
                    v <= 0xFFFF_FFFF_FFFF_FFFF,
            ;
            proof {
                if exp - 1075 >= 11 {
                    doubled_eleven((exp - 1075) as nat);
                }
                doubled_split(1, (exp - 1075) as nat, 1);
                assert(doubled(divisor as nat, 1) == 2 * divisor) by {
                    reveal_with_fuel(doubled, 3);
                }
            }
            divisor = divisor * 2;
            exp = exp + 1;
        }
        let q = v / divisor;
        let r = v % divisor;
        let up = 2 * r > divisor || (2 * r == divisor && q % 2 == 1);
        let sig = if up { q + 1 } else { q };
        (exp - 1) * HIDDEN + sig
    }
}

proof fn halved_after(x: nat, a: nat, b: nat)
    ensures
        halved(x, a + b) == halved(halved(x, a), b),
    decreases a,
{
    if a > 0 {
        halved_after(x / 2, (a - 1) as nat, b);
    }
}

proof fn halved_exactly_after(x: nat, a: nat, b: nat, z: nat)
    requires
        halved_exactly(x, a) == Some(z),
    ensures
        halved_exactly(x, a + b) == halved_exactly(z, b),
    decreases a,
{
    if a > 0 {
        halved_exactly_after(x / 2, (a - 1) as nat, b, z);
    }
}

proof fn doubling_is_undone(x: nat, times: nat)
    ensures
        halved(doubled(x, times), times) == x,
        halved_exactly(doubled(x, times), times) == Some(x),
    decreases times,
{
    if times > 0 {
        let y = doubled(x * 2, (times - 1) as nat);
        doubling_is_undone(x * 2, (times - 1) as nat);
        halved_after(y, (times - 1) as nat, 1);
        halved_exactly_after(y, (times - 1) as nat, 1, x * 2);
        assert(halved(x * 2, 1) == x) by {
            reveal_with_fuel(halved, 2);
        }
        assert(halved_exactly(x * 2, 1) == Some(x)) by {
            reveal_with_fuel(halved_exactly, 2);
        }
    }
}

proof fn doubled_grows_with(x: nat, y: nat, times: nat)
    requires
        x <= y,
    ensures
        doubled(x, times) <= doubled(y, times),
    decreases times,
{
    if times > 0 {
        doubled_grows_with(x * 2, y * 2, (times - 1) as nat);
    }
}

proof fn doubled_fills(x: nat, times: nat)
    requires
        x >= 1,
        times >= 53,
    ensures
        doubled(x, times) >= 2 * HIDDEN,
{
    assert(doubled(1, 53) == 2 * HIDDEN) by {
        reveal_with_fuel(doubled, 54);
    }
    doubled_split(1, 53, (times - 53) as nat);
    doubled_grows(2 * HIDDEN as nat, (times - 53) as nat);
    doubled_grows_with(1, x, times);
}

proof fn raised_is_doubled(sig: nat, exp: nat)
    requires
        0 < sig < 2 * HIDDEN,
        exp >= 1,
    ensures
        ({
            let (s, e) = raised(sig, exp);
            &&& 1 <= e <= exp
            &&& s == doubled(sig, (exp - e) as nat)
            &&& s < 2 * HIDDEN
            &&& s >= HIDDEN || e <= 1
        }),
    decreases exp,
{
    if sig < HIDDEN && exp > 1 {
        raised_is_doubled(sig * 2, (exp - 1) as nat);
    }
}

/// Lengths are exact: a length below two to the power 53 is the whole number
/// that its pattern stands for, and the index that the pattern stands for
/// is the length again.
pub proof fn lengths_are_exact(n: nat)
    requires
        n < 2 * HIDDEN,
        n < usize::MAX,
    ensures
        number_of(n) <= u64::MAX,
        !sign_set(number_of(n) as u64),
        !is_nan(number_of(n) as u64),
        whole_of(number_of(n) as u64) == Some(n),
        index_of(number_of(n) as u64) == Some(n as usize),
{
    if n > 0 {
        raised_is_doubled(n, 1075);
        let (s, e) = raised(n, 1075);
        let k = (1075 - e) as nat;
        if k >= 53 {
            doubled_fills(n, k);
        }
        doubling_is_undone(n, k);
        let bits = ((e - 1) * HIDDEN + s) as nat;
        assert(number_of(n) == bits);
        assert(bits < 0x7FF0_0000_0000_0000 && bits / 0x0010_0000_0000_0000 == e && bits
            % 0x0010_0000_0000_0000 == s - 0x0010_0000_0000_0000) by (nonlinear_arith)
            requires
                bits == (e - 1) * 0x0010_0000_0000_0000 + s,
                0x0010_0000_0000_0000 <= s < 2 * 0x0010_0000_0000_0000,
                1023 <= e <= 1075,
        ;
        let b = bits as u64;
        assert(magnitude(b) == bits);
        assert(exponent(b) == e);
        assert(significand(b) == s);
    }
}

} // verus!
