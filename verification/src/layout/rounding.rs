use vstd::arithmetic::div_mod::{
    lemma_fundamental_div_mod, lemma_fundamental_div_mod_converse, lemma_mod_multiples_basic,
};
use vstd::arithmetic::mul::lemma_mul_is_distributive_add;
use vstd::arithmetic::power2::is_pow2;
use vstd::prelude::*;

verus! {

/// `n` rounded up to a multiple of `align`: `n` itself where `align` divides
/// it, else `n` plus what is missing to the next multiple.
pub open spec fn align_up(n: int, align: int) -> int {
    if n % align == 0 {
        n
    } else {
        n + align - n % align
    }
}

/// The larger of two alignments.
pub open spec fn max_align(a: int, b: int) -> int {
    if a >= b {
        a
    } else {
        b
    }
}

/// `align_up(n, align)` is a multiple of `align`, at least `n`, and less than
/// one `align` away from it.
pub proof fn lemma_align_up_bounds(n: int, align: int)
    requires
        align > 0,
    ensures
        align_up(n, align) % align == 0,
        n <= align_up(n, align) < n + align,
{
    let q = n / align;
    let r = n % align;
    lemma_fundamental_div_mod(n, align);
    if r != 0 {
        assert(align * (q + 1) == align * q + align * 1) by {
            lemma_mul_is_distributive_add(align, q, 1);
        }
        assert(align_up(n, align) == (q + 1) * align) by (nonlinear_arith)
            requires
                align_up(n, align) == n + align - r,
                n == align * q + r,
                align * (q + 1) == align * q + align * 1,
        ;
        lemma_mod_multiples_basic(q + 1, align);
    }
}

/// No multiple of `align` lies between `n` and `align_up(n, align)`: the
/// rounding adds the least padding that aligns.
pub proof fn lemma_align_up_least(n: int, align: int, m: int)
    requires
        align > 0,
        m % align == 0,
        n <= m,
    ensures
        align_up(n, align) <= m,
{
    lemma_align_up_bounds(n, align);
    let u = align_up(n, align);
    if m < u {
        lemma_fundamental_div_mod(m, align);
        lemma_fundamental_div_mod(u, align);
        let a = m / align;
        let b = u / align;
        assert(a < b) by (nonlinear_arith)
            requires
                align > 0,
                m == align * a,
                u == align * b,
                m < u,
        ;
        assert(u - m >= align) by (nonlinear_arith)
            requires
                align > 0,
                m == align * a,
                u == align * b,
                a < b,
        ;
    }
}

/// A product with a multiple of `align` is a multiple of `align`.
pub proof fn lemma_multiple_times(m: int, k: int, align: int)
    requires
        align > 0,
        m % align == 0,
    ensures
        (k * m) % align == 0,
{
    lemma_fundamental_div_mod(m, align);
    let q = m / align;
    assert(k * m == (k * q) * align) by (nonlinear_arith)
        requires
            m == align * q,
    ;
    lemma_mod_multiples_basic(k * q, align);
}

/// A power of two is positive.
pub proof fn lemma_pow2_positive(n: int)
    requires
        is_pow2(n),
    ensures
        n > 0,
{
    reveal(is_pow2);
}

/// The larger of two powers of two is a power of two, and both divide it.
pub proof fn lemma_max_align(a: int, b: int)
    requires
        is_pow2(a),
        is_pow2(b),
    ensures
        is_pow2(max_align(a, b)),
        max_align(a, b) % a == 0,
        max_align(a, b) % b == 0,
{
    if a >= b {
        lemma_pow2_divides(b, a);
        lemma_pow2_divides(a, a);
    } else {
        lemma_pow2_divides(a, b);
        lemma_pow2_divides(b, b);
    }
}

/// Of two powers of two the smaller divides the larger.
pub proof fn lemma_pow2_divides(a: int, b: int)
    requires
        is_pow2(a),
        is_pow2(b),
        a <= b,
    ensures
        b % a == 0,
    decreases a,
{
    reveal(is_pow2);
    if a == 1 {
        assert(b % 1 == 0);
    } else {
        assert(b > 1);
        lemma_pow2_divides(a / 2, b / 2);
        let x = a / 2;
        let y = b / 2;
        lemma_fundamental_div_mod(y, x);
        let q = y / x;
        assert(b == q * a) by (nonlinear_arith)
            requires
                a == 2 * x,
                b == 2 * y,
                y == x * q,
        ;
        lemma_mod_multiples_basic(q, a);
    }
}

/// Tells whether `x` is a power of two.
pub fn is_power_of_two(x: usize) -> (r: bool)
    ensures
        r == is_pow2(x as int),
{
    proof {
        lemma_pow2_bit_test(x);
    }
    x != 0 && x & (x - 1) == 0
}

/// The bit test for a power of two: `x` shares no bit with `x - 1`.
proof fn lemma_pow2_bit_test(x: usize)
    ensures
        (x != 0 && x & ((x - 1) as usize) == 0) <==> is_pow2(x as int),
    decreases x,
{
    reveal(is_pow2);
    if x == 0 {
    } else if x == 1 {
        assert(1usize & ((1usize - 1) as usize) == 0) by (bit_vector);
    } else {
        let h: usize = x / 2;
        lemma_pow2_bit_test(h);
        if x % 2 == 0 {
            assert((x & ((x - 1) as usize) == 0) <==> (h & ((h - 1) as usize) == 0))
                by (bit_vector)
                requires
                    x > 1,
                    x % 2 == 0,
                    h == x / 2,
            ;
        } else {
            assert(x & ((x - 1) as usize) != 0) by (bit_vector)
                requires
                    x > 1,
                    x % 2 == 1,
            ;
        }
    }
}

/// The largest `isize` is one less than a power of two.
proof fn lemma_isize_limit_is_pow2()
    ensures
        is_pow2(isize::MAX + 1),
{
    let x: usize = (isize::MAX + 1) as usize;
    assert(x == 0x8000_0000 || x == 0x8000_0000_0000_0000);
    assert(x != 0 && x & ((x - 1) as usize) == 0) by (bit_vector)
        requires
            x == 0x8000_0000 || x == 0x8000_0000_0000_0000,
    ;
    lemma_pow2_bit_test(x);
}

/// For a power of two `align`, `n` rounded up to `align` fits in an `isize`
/// exactly where `n` is at most `isize::MAX - (align - 1)`, and `align - 1`
/// is the remainder of `isize::MAX` by `align`.
pub proof fn lemma_fits_isize(n: usize, align: usize)
    requires
        is_pow2(align as int),
    ensures
        align <= isize::MAX + 1,
        (isize::MAX as int) % (align as int) == align - 1,
        align_up(n as int, align as int) <= isize::MAX <==> n <= isize::MAX - (align - 1),
{
    let limit: int = isize::MAX + 1;
    let a = align as int;
    lemma_isize_limit_is_pow2();
    lemma_pow2_positive(a);
    if a > limit {
        lemma_pow2_divides(limit, a);
        lemma_fundamental_div_mod(a, limit);
        let q = a / limit;
        assert(q >= 2) by (nonlinear_arith)
            requires
                a == limit * q,
                a > limit,
                limit > 0,
        ;
        assert(a >= 2 * limit) by (nonlinear_arith)
            requires
                a == limit * q,
                q >= 2,
                limit > 0,
        ;
    }
    lemma_pow2_divides(a, limit);
    lemma_fundamental_div_mod(limit, a);
    let q = limit / a;
    assert(q >= 1) by (nonlinear_arith)
        requires
            limit == a * q,
            limit > 0,
            a > 0,
    ;
    assert(limit - 1 == a * (q - 1) + (a - 1)) by (nonlinear_arith)
        requires
            limit == a * q,
    ;
    lemma_fundamental_div_mod_converse(limit - 1, a, q - 1, a - 1);
    lemma_align_up_bounds(n as int, a);
    lemma_mod_multiples_basic(q - 1, a);
    assert(limit - a == (q - 1) * a) by (nonlinear_arith)
        requires
            limit == a * q,
    ;
    if n <= limit - a {
        lemma_align_up_least(n as int, a, limit - a);
    }
    if align_up(n as int, a) <= limit - 1 {
        lemma_fundamental_div_mod(align_up(n as int, a), a);
        let k = align_up(n as int, a) / a;
        assert(k < q) by (nonlinear_arith)
            requires
                a * k < a * q,
                a > 0,
        ;
        assert(a * k <= a * q - a) by (nonlinear_arith)
            requires
                k < q,
                a > 0,
        ;
    }
}

/// `n` rounded up to a multiple of `align`, or `None` where that does not fit
/// in a `usize`.
pub fn round_up(n: usize, align: usize) -> (r: Option<usize>)
    requires
        align > 0,
    ensures
        align_up(n as int, align as int) <= usize::MAX ==> r == Some(
            align_up(n as int, align as int) as usize,
        ),
        align_up(n as int, align as int) > usize::MAX ==> r is None,
{
    let rem: usize = n % align;
    if rem == 0 {
        Some(n)
    } else {
        n.checked_add(align - rem)
    }
}

} // verus!
