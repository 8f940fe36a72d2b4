//! Order, equality and finiteness of single-precision numbers, read off their bit patterns.

use vstd::prelude::*;

verus! {

/// Bit pattern of `0.0`.
pub const ZERO: u32 = 0;

/// Bit pattern of `1.0`.
pub const ONE: u32 = 0x3f80_0000;

/// The sign bit is set.
pub open spec fn negative(bits: u32) -> bool {
    bits >= 0x8000_0000
}

/// The pattern without its sign bit: grows with the absolute value.
pub open spec fn magnitude(bits: u32) -> int {
    if negative(bits) {
        bits - 0x8000_0000
    } else {
        bits as int
    }
}

/// Neither infinite nor NaN.
pub open spec fn finite(bits: u32) -> bool {
    magnitude(bits) < 0x7f80_0000
}

pub open spec fn nan(bits: u32) -> bool {
    magnitude(bits) > 0x7f80_0000
}

/// A number with the same order as the value, for patterns that are not NaN: both zeros map to 0.
pub open spec fn rank(bits: u32) -> int {
    if negative(bits) {
        -magnitude(bits)
    } else {
        magnitude(bits)
    }
}

/// The value order, false as soon as an operand is NaN.
pub open spec fn less(a: u32, b: u32) -> bool {
    !nan(a) && !nan(b) && rank(a) < rank(b)
}

pub open spec fn less_or_same(a: u32, b: u32) -> bool {
    !nan(a) && !nan(b) && rank(a) <= rank(b)
}

/// Equal as values: `-0.0` is `0.0` and NaN differs from itself.
pub open spec fn same_value(a: u32, b: u32) -> bool {
    !nan(a) && !nan(b) && rank(a) == rank(b)
}

/// The IEEE total order as a number: negative patterns below positive ones, `-0.0` below `0.0`,
/// NaNs at the two ends.
pub open spec fn total_rank(bits: u32) -> int {
    if negative(bits) {
        -1 - magnitude(bits)
    } else {
        magnitude(bits)
    }
}

pub open spec fn all_finite(s: Seq<u32>) -> bool {
    forall|i: int| 0 <= i < s.len() ==> finite(#[trigger] s[i])
}

pub fn is_finite(bits: u32) -> (r: bool)
    ensures
        r == finite(bits),
{
    if bits >= 0x8000_0000 {
        bits - 0x8000_0000 < 0x7f80_0000
    } else {
        bits < 0x7f80_0000
    }
}

pub fn is_nan(bits: u32) -> (r: bool)
    ensures
        r == nan(bits),
{
    if bits >= 0x8000_0000 {
        bits - 0x8000_0000 > 0x7f80_0000
    } else {
        bits > 0x7f80_0000
    }
}

fn rank_of(bits: u32) -> (r: i64)
    ensures
        r == rank(bits),
{
    if bits >= 0x8000_0000 {
        -((bits - 0x8000_0000) as i64)
    } else {
        bits as i64
    }
}

/// The position of a pattern in the IEEE total order.
pub fn total_order_key(bits: u32) -> (r: i64)
    ensures
        r == total_rank(bits),
{
    if bits >= 0x8000_0000 {
        -1 - ((bits - 0x8000_0000) as i64)
    } else {
        bits as i64
    }
}

pub fn is_less(a: u32, b: u32) -> (r: bool)
    ensures
        r == less(a, b),
{
    !is_nan(a) && !is_nan(b) && rank_of(a) < rank_of(b)
}

pub fn is_less_or_same(a: u32, b: u32) -> (r: bool)
    ensures
        r == less_or_same(a, b),
{
    !is_nan(a) && !is_nan(b) && rank_of(a) <= rank_of(b)
}

pub fn is_same_value(a: u32, b: u32) -> (r: bool)
    ensures
        r == same_value(a, b),
{
    !is_nan(a) && !is_nan(b) && rank_of(a) == rank_of(b)
}

/// The same point: equal values on all three axes.
pub open spec fn same_point(a: [u32; 3], b: [u32; 3]) -> bool {
    same_value(a[0], b[0]) && same_value(a[1], b[1]) && same_value(a[2], b[2])
}

pub fn is_same_point(a: [u32; 3], b: [u32; 3]) -> (r: bool)
    ensures
        r == same_point(a, b),
{
    is_same_value(a[0], b[0]) && is_same_value(a[1], b[1]) && is_same_value(a[2], b[2])
}

/// Lists of equal values.
pub open spec fn same_values(a: Seq<u32>, b: Seq<u32>) -> bool {
    a.len() == b.len() && forall|i: int| 0 <= i < a.len() ==> same_value(#[trigger] a[i], b[i])
}

pub fn are_same_values(a: &[u32], b: &[u32]) -> (r: bool)
    ensures
        r == same_values(a@, b@),
{
    if a.len() != b.len() {
        return false;
    }
    for i in 0..a.len()
        invariant
            a@.len() == b@.len(),
            forall|k: int| 0 <= k < i ==> same_value(#[trigger] a@[k], b@[k]),
    {
        if !is_same_value(a[i], b[i]) {
            assert(!same_value(a@[i as int], b@[i as int]));
            return false;
        }
    }
    true
}

/// Lists of equal points.
pub open spec fn same_points(a: Seq<[u32; 3]>, b: Seq<[u32; 3]>) -> bool {
    a.len() == b.len() && forall|i: int| 0 <= i < a.len() ==> same_point(#[trigger] a[i], b[i])
}

pub fn are_same_points(a: &[[u32; 3]], b: &[[u32; 3]]) -> (r: bool)
    ensures
        r == same_points(a@, b@),
{
    if a.len() != b.len() {
        return false;
    }
    for i in 0..a.len()
        invariant
            a@.len() == b@.len(),
            forall|k: int| 0 <= k < i ==> same_point(#[trigger] a@[k], b@[k]),
    {
        if !is_same_point(a[i], b[i]) {
            assert(!same_point(a@[i as int], b@[i as int]));
            return false;
        }
    }
    true
}

/// The absolute value: the sign bit cleared.
pub open spec fn abs_bits(bits: u32) -> u32 {
    magnitude(bits) as u32
}

pub fn abs(bits: u32) -> (r: u32)
    ensures
        r == abs_bits(bits),
{
    if bits >= 0x8000_0000 {
        bits - 0x8000_0000
    } else {
        bits
    }
}

/// Confines a value to `[low, high]`; NaN stays NaN.
pub open spec fn clamped(bits: u32, low: u32, high: u32) -> u32 {
    if less(bits, low) {
        low
    } else if less(high, bits) {
        high
    } else {
        bits
    }
}

pub fn clamp(bits: u32, low: u32, high: u32) -> (r: u32)
    ensures
        r == clamped(bits, low, high),
{
    if is_less(bits, low) {
        low
    } else if is_less(high, bits) {
        high
    } else {
        bits
    }
}

/// The position of the highest bit that is set.
pub open spec fn top_bit(n: nat) -> nat
    decreases n,
{
    if n < 2 {
        0
    } else {
        1 + top_bit(n / 2)
    }
}

/// `n / d` rounded to the nearest integer, a tie to the even one.
pub open spec fn nearest_quotient(n: nat, d: nat) -> nat {
    if 2 * (n % d) < d || (2 * (n % d) == d && (n / d) % 2 == 0) {
        n / d
    } else {
        n / d + 1
    }
}

/// The pattern of the number closest to an integer; halfway, that of the even significand. The
/// significand has 24 bits, the highest of which the pattern leaves out.
pub open spec fn integer_bits(n: nat) -> nat {
    if n == 0 {
        0
    } else if top_bit(n) <= 23 {
        (126 + top_bit(n)) * 0x80_0000 + n * vstd::arithmetic::power2::pow2((23 - top_bit(n)) as nat)
    } else {
        (126 + top_bit(n)) * 0x80_0000 + nearest_quotient(
            n,
            vstd::arithmetic::power2::pow2((top_bit(n) - 23) as nat),
        )
    }
}

proof fn top_bit_brackets(n: nat)
    requires
        n >= 1,
    ensures
        vstd::arithmetic::power2::pow2(top_bit(n)) <= n,
        n < vstd::arithmetic::power2::pow2(top_bit(n) + 1),
    decreases n,
{
    vstd::arithmetic::power2::lemma2_to64();
    if n >= 2 {
        top_bit_brackets(n / 2);
        vstd::arithmetic::power2::lemma_pow2_unfold(top_bit(n));
        vstd::arithmetic::power2::lemma_pow2_unfold(top_bit(n) + 1);
    }
}

/// The number closest to an integer of at most `top + 1` bits is between 1 and `2^(top + 1)`.
pub proof fn integer_bits_range(n: nat, top: nat)
    requires
        1 <= n < vstd::arithmetic::power2::pow2(top + 1),
    ensures
        127 * 0x80_0000 <= integer_bits(n) <= (128 + top) * 0x80_0000,
{
    top_bit_brackets(n);
    let k = top_bit(n);
    if k > top {
        if k > top + 1 {
            vstd::arithmetic::power2::lemma_pow2_strictly_increases(top + 1, k);
        }
    }
    vstd::arithmetic::power2::lemma2_to64();
    if k <= 23 {
        let scale = vstd::arithmetic::power2::pow2((23 - k) as nat);
        vstd::arithmetic::power2::lemma_pow2_adds(k, (23 - k) as nat);
        vstd::arithmetic::power2::lemma_pow2_adds(k + 1, (23 - k) as nat);
        assert(0x80_0000 <= n * scale < 0x100_0000) by (nonlinear_arith)
            requires
                vstd::arithmetic::power2::pow2(k) <= n < vstd::arithmetic::power2::pow2(k + 1),
                vstd::arithmetic::power2::pow2(k) * scale == 0x80_0000,
                vstd::arithmetic::power2::pow2(k + 1) * scale == 0x100_0000,
                scale >= 1,
        ;
    } else {
        let scale = vstd::arithmetic::power2::pow2((k - 23) as nat);
        vstd::arithmetic::power2::lemma_pow2_pos((k - 23) as nat);
        vstd::arithmetic::power2::lemma_pow2_adds(23, (k - 23) as nat);
        vstd::arithmetic::power2::lemma_pow2_adds(24, (k - 23) as nat);
        assert(0x80_0000 <= n / scale < 0x100_0000) by (nonlinear_arith)
            requires
                0x80_0000 * scale <= n < 0x100_0000 * scale,
                scale >= 1,
        ;
    }
}

/// `2^k` for small `k`.
fn power_of_two(k: u32) -> (r: u64)
    requires
        k <= 41,
    ensures
        r == vstd::arithmetic::power2::pow2(k as nat),
{
    proof {
        vstd::arithmetic::power2::lemma2_to64();
        vstd::arithmetic::power2::lemma2_to64_rest();
    }
    let mut r: u64 = 1;
    let mut i: u32 = 0;
    while i < k
        invariant
            i <= k,
            k <= 41,
            r == vstd::arithmetic::power2::pow2(i as nat),
        decreases k - i,
    {
        proof {
            vstd::arithmetic::power2::lemma_pow2_unfold((i + 1) as nat);
            vstd::arithmetic::power2::lemma_pow2_strictly_increases(i as nat, 41);
            vstd::arithmetic::power2::lemma2_to64_rest();
        }
        r = r * 2;
        i = i + 1;
    }
    r
}

/// An integer as a number.
pub fn from_integer(n: u64) -> (r: u32)
    ensures
        r == integer_bits(n as nat),
{
    if n == 0 {
        return 0;
    }
    proof {
        top_bit_brackets(n as nat);
        vstd::arithmetic::power2::lemma2_to64();
        vstd::arithmetic::power2::lemma2_to64_rest();
        if top_bit(n as nat) > 64 {
            vstd::arithmetic::power2::lemma_pow2_strictly_increases(64, top_bit(n as nat));
        }
    }
    let mut rest: u64 = n;
    let mut top: u32 = 0;
    while rest >= 2
        invariant
            n >= 1,
            rest >= 1,
            top + top_bit(rest as nat) == top_bit(n as nat),
            top_bit(n as nat) <= 63,
        decreases rest,
    {
        rest = rest / 2;
        top = top + 1;
    }
    proof {
        top_bit_brackets(n as nat);
    }
    if top <= 23 {
        let scale: u64 = power_of_two(23 - top);
        proof {
            vstd::arithmetic::power2::lemma_pow2_adds((top + 1) as nat, (23 - top) as nat);
            vstd::arithmetic::power2::lemma2_to64();
            assert(n * scale < 0x100_0000) by (nonlinear_arith)
                requires
                    n < vstd::arithmetic::power2::pow2((top + 1) as nat),
                    scale == vstd::arithmetic::power2::pow2((23 - top) as nat),
                    scale >= 1,
                    vstd::arithmetic::power2::pow2((top + 1) as nat)
                        * vstd::arithmetic::power2::pow2((23 - top) as nat) == 0x100_0000,
            ;
        }
        (126 + top) * 0x80_0000 + (n * scale) as u32
    } else {
        let scale: u64 = power_of_two(top - 23);
        proof {
            vstd::arithmetic::power2::lemma_pow2_pos((top - 23) as nat);
        }
        let quotient: u64 = n / scale;
        let remainder: u64 = n % scale;
        proof {
            vstd::arithmetic::power2::lemma_pow2_adds(24, (top - 23) as nat);
            vstd::arithmetic::power2::lemma2_to64();
            vstd::arithmetic::power2::lemma2_to64_rest();
            vstd::arithmetic::power2::lemma_pow2_strictly_increases((top - 23) as nat, 41);
            assert(n / scale < 0x100_0000) by (nonlinear_arith)
                requires
                    n < 0x100_0000 * scale,
                    scale >= 1,
            ;
        }
        let significand: u64 = if 2 * remainder < scale || (2 * remainder == scale && quotient % 2
            == 0) {
            quotient
        } else {
            quotient + 1
        };
        (126 + top) * 0x80_0000 + significand as u32
    }
}

/// The integer part of a number, as far as 32 bits hold it: nothing of one that is negative or not
/// a number, and the greatest of one that is larger.
pub open spec fn whole_part(bits: u32) -> nat {
    let exponent = bits / 0x80_0000;
    let significand = 0x80_0000 + bits % 0x80_0000;
    if negative(bits) || nan(bits) || exponent < 127 {
        0
    } else if exponent > 158 {
        0xffff_ffff
    } else {
        (significand * vstd::arithmetic::power2::pow2((exponent - 127) as nat) / 0x80_0000) as nat
    }
}

/// The integer part of a number.
pub fn to_integer(bits: u32) -> (r: u32)
    ensures
        r == whole_part(bits),
{
    let exponent: u32 = bits / 0x80_0000;
    if bits >= 0x8000_0000 || is_nan(bits) || exponent < 127 {
        return 0;
    }
    if exponent > 158 {
        return 0xffff_ffff;
    }
    let significand: u64 = (0x80_0000 + bits % 0x80_0000) as u64;
    let scale: u64 = power_of_two(exponent - 127);
    proof {
        vstd::arithmetic::power2::lemma2_to64();
        vstd::arithmetic::power2::lemma2_to64_rest();
        if exponent < 158 {
            vstd::arithmetic::power2::lemma_pow2_strictly_increases((exponent - 127) as nat, 31);
        }
        assert(significand * scale < 0x100_0000 * 0x8000_0000) by (nonlinear_arith)
            requires
                significand < 0x100_0000,
                0 <= scale <= 0x8000_0000,
        ;
        assert(0 <= significand * scale) by (nonlinear_arith)
            requires
                significand >= 0,
                scale >= 0,
        ;
    }
    (significand * scale / 0x80_0000) as u32
}

/// The integer part of a number below a small integer is below it too.
pub proof fn whole_part_stays_below(bits: u32, n: nat)
    requires
        1 <= n < 0x100_0000,
        less(bits, integer_bits(n) as u32),
    ensures
        whole_part(bits) < n,
{
    top_bit_brackets(n);
    let k = top_bit(n);
    vstd::arithmetic::power2::lemma2_to64();
    if k > 23 {
        if k > 24 {
            vstd::arithmetic::power2::lemma_pow2_strictly_increases(24, k);
        }
    }
    let scale = vstd::arithmetic::power2::pow2((23 - k) as nat);
    let power = vstd::arithmetic::power2::pow2(k);
    vstd::arithmetic::power2::lemma_pow2_adds(k, (23 - k) as nat);
    vstd::arithmetic::power2::lemma_pow2_adds(k + 1, (23 - k) as nat);
    vstd::arithmetic::power2::lemma_pow2_pos(k);
    vstd::arithmetic::power2::lemma_pow2_pos((23 - k) as nat);
    assert(0x80_0000 <= n * scale < 0x100_0000) by (nonlinear_arith)
        requires
            power <= n < vstd::arithmetic::power2::pow2(k + 1),
            power * scale == 0x80_0000,
            vstd::arithmetic::power2::pow2(k + 1) * scale == 0x100_0000,
            scale >= 1,
    ;
    let exponent = bits / 0x80_0000;
    let significand = 0x80_0000 + bits % 0x80_0000;
    if !negative(bits) && exponent >= 127 {
        let bound = integer_bits(n);
        assert(bound == (126 + k) * 0x80_0000 + n * scale);
        assert(bits < bound);
        let shift = (exponent - 127) as nat;
        let factor = vstd::arithmetic::power2::pow2(shift);
        vstd::arithmetic::power2::lemma_pow2_pos(shift);
        if exponent < 127 + k {
            vstd::arithmetic::power2::lemma_pow2_unfold(k);
            if shift + 1 < k {
                vstd::arithmetic::power2::lemma_pow2_strictly_increases(shift + 1, k);
            }
            vstd::arithmetic::power2::lemma_pow2_unfold(shift + 1);
            assert(significand * factor < n * 0x80_0000) by (nonlinear_arith)
                requires
                    0 <= significand < 0x100_0000,
                    1 <= factor,
                    2 * factor <= power,
                    power <= n,
            ;
        } else {
            assert(exponent == 127 + k);
            assert(significand < n * scale);
            assert(significand * factor < n * 0x80_0000) by (nonlinear_arith)
                requires
                    0 <= significand < n * scale,
                    factor * scale == 0x80_0000,
                    1 <= factor,
            ;
        }
        assert(significand * factor / 0x80_0000 < n) by (nonlinear_arith)
            requires
                0 <= significand * factor < n * 0x80_0000,
        ;
    }
}

/// Whether every value of a buffer is finite.
pub fn is_all_finite(values: &[u32]) -> (r: bool)
    ensures
        r == all_finite(values@),
{
    for i in 0..values.len()
        invariant
            forall|k: int| 0 <= k < i ==> finite(#[trigger] values@[k]),
    {
        if !is_finite(values[i]) {
            assert(!finite(values@[i as int]));
            return false;
        }
    }
    true
}

/// The total order separates patterns: only equal patterns share a position.
pub proof fn total_order_is_antisymmetric(a: u32, b: u32)
    ensures
        total_rank(a) == total_rank(b) <==> a == b,
{
}

/// The total order refines the value order.
pub proof fn total_order_refines_value_order(a: u32, b: u32)
    requires
        less(a, b),
    ensures
        total_rank(a) < total_rank(b),
{
}

/// Clamping to ordered, non-NaN bounds gives a value between them, and clamping again changes
/// nothing.
pub proof fn clamp_is_bounded_and_idempotent(bits: u32, low: u32, high: u32)
    requires
        less_or_same(low, high),
    ensures
        !nan(bits) ==> less_or_same(low, clamped(bits, low, high)),
        !nan(bits) ==> less_or_same(clamped(bits, low, high), high),
        clamped(clamped(bits, low, high), low, high) == clamped(bits, low, high),
{
}

/// Integers of up to 24 bits are kept exactly: the integer part of their number is the integer.
pub proof fn small_integers_are_kept(n: nat)
    requires
        1 <= n < 0x100_0000,
    ensures
        integer_bits(n) <= u32::MAX,
        whole_part(integer_bits(n) as u32) == n,
{
    top_bit_brackets(n);
    let k = top_bit(n);
    vstd::arithmetic::power2::lemma2_to64();
    if k > 23 {
        if k > 24 {
            vstd::arithmetic::power2::lemma_pow2_strictly_increases(24, k);
        }
    }
    let scale = vstd::arithmetic::power2::pow2((23 - k) as nat);
    let power = vstd::arithmetic::power2::pow2(k);
    vstd::arithmetic::power2::lemma_pow2_adds(k, (23 - k) as nat);
    vstd::arithmetic::power2::lemma_pow2_adds(k + 1, (23 - k) as nat);
    vstd::arithmetic::power2::lemma_pow2_pos(k);
    vstd::arithmetic::power2::lemma_pow2_pos((23 - k) as nat);
    vstd::arithmetic::power2::lemma_pow2_unfold(k + 1);
    assert(0x80_0000 <= n * scale < 0x100_0000) by (nonlinear_arith)
        requires
            power <= n < 2 * power,
            power * scale == 0x80_0000,
    ;
    let bits = integer_bits(n);
    let m = n * scale - 0x80_0000;
    assert(bits == (127 + k) * 0x80_0000 + m);
    assert(bits / 0x80_0000 == 127 + k && bits % 0x80_0000 == m) by (nonlinear_arith)
        requires
            bits == (127 + k) * 0x80_0000 + m,
            0 <= m < 0x80_0000,
    ;
    assert(bits < 0x8000_0000);
    assert((n * scale) * power == n * 0x80_0000) by (nonlinear_arith)
        requires
            power * scale == 0x80_0000,
    ;
    assert((n * 0x80_0000) / 0x80_0000 == n as int);
}

} // verus!
