//! Binomial coefficients `C(n, k)` for `0 <= k <= n <= 64` and the number of
//! bits that the enumerative code of a 64-bit block takes. Both are
//! precomputed: every value is a literal, one `match` per table row, and every
//! literal is proved against the mathematical definition.

use vstd::arithmetic::power2::{
    lemma2_to64, lemma2_to64_rest, lemma_pow2_pos, lemma_pow2_unfold, pow2,
};
use vstd::prelude::*;

verus! {

/// The widest enumerative code that is stored; a class whose code would be
/// wider is stored as the raw block.
pub const MAX_CODE_BITS: usize = 48;

/// The width of a block that is stored raw.
pub const RAW_BITS: usize = 64;

/// The number of `k`-element subsets of an `n`-element set, by Pascal's rule.
pub open spec fn binomial(n: nat, k: nat) -> nat
    decreases n,
{
    if k == 0 {
        1
    } else if n == 0 {
        0
    } else {
        binomial((n - 1) as nat, (k - 1) as nat) + binomial((n - 1) as nat, k)
    }
}

/// The least `b` with `x <= 2^b`, that is `ceil(log2(x))` for `x >= 1`.
pub open spec fn ceil_log2(x: nat) -> nat
    decreases x,
{
    if x <= 1 {
        0
    } else {
        1 + ceil_log2((x + 1) / 2)
    }
}

/// The number of bits in which the code of a block with `k` ones is stored:
/// `ceil(log2(C(64, k)))`, or 64 (the raw block) where that exceeds
/// `MAX_CODE_BITS`.
pub open spec fn code_width(k: nat) -> nat {
    let natural = ceil_log2(binomial(64, k));
    if natural <= MAX_CODE_BITS {
        natural
    } else {
        RAW_BITS as nat
    }
}

/// There is no way to choose more elements than there are.
pub proof fn lemma_binomial_zero(n: nat, k: nat)
    requires
        k > n,
    ensures
        binomial(n, k) == 0,
    decreases n,
{
    if n > 0 {
        lemma_binomial_zero((n - 1) as nat, (k - 1) as nat);
        lemma_binomial_zero((n - 1) as nat, k);
    }
}

/// A coefficient of row `n >= 1` is at most `2^(n-1)`, so every coefficient
/// of the rows up to 64 fits in 64 bits.
pub proof fn lemma_binomial_bound(n: nat, k: nat)
    requires
        n >= 1,
    ensures
        binomial(n, k) <= pow2((n - 1) as nat),
    decreases n,
{
    lemma2_to64();
    if n == 1 {
        assert(binomial(0, k) <= 1);
        if k > 0 {
            assert(binomial(0, (k - 1) as nat) <= 1);
            if k > 1 {
                lemma_binomial_zero(0, k);
                lemma_binomial_zero(0, (k - 1) as nat);
            }
        }
    } else {
        lemma_pow2_unfold((n - 1) as nat);
        lemma_pow2_pos((n - 1) as nat);
        if k > 0 {
            lemma_binomial_bound((n - 1) as nat, (k - 1) as nat);
            lemma_binomial_bound((n - 1) as nat, k);
        }
    }
}

/// Every coefficient of the rows up to 64 fits in 64 bits.
pub proof fn lemma_binomial_fits(n: nat, k: nat)
    requires
        n <= 64,
    ensures
        binomial(n, k) <= 0x8000_0000_0000_0000,
    decreases 64 - n,
{
    lemma2_to64();
    lemma2_to64_rest();
    if n == 64 {
        lemma_binomial_bound(64, k);
    } else {
        lemma_binomial_fits(n + 1, k);
        lemma_binomial_fits(n + 1, k + 1);
        assert(binomial(n + 1, k + 1) == binomial(n, k) + binomial(n, k + 1));
    }
}

/// `ceil_log2(x)` is the one `w` with `2^(w-1) < x <= 2^w`.
pub proof fn lemma_ceil_log2_unique(x: nat, w: nat)
    requires
        1 <= x <= pow2(w),
        w > 0 ==> pow2((w - 1) as nat) < x,
    ensures
        ceil_log2(x) == w,
    decreases w,
{
    if w == 0 {
        assert(pow2(0) == 1) by {
            lemma2_to64();
        }
    } else {
        lemma_pow2_unfold(w);
        lemma_pow2_pos((w - 1) as nat);
        let y = (x + 1) / 2;
        if w == 1 {
            assert(pow2(0) == 1) by {
                lemma2_to64();
            }
            assert(x == 2);
            assert(y == 1);
            assert(ceil_log2(y) == 0);
        } else {
            lemma_pow2_unfold((w - 1) as nat);
            lemma_ceil_log2_unique(y, (w - 1) as nat);
        }
        assert(ceil_log2(x) == 1 + ceil_log2(y));
    }
}

/// Above `2^w` the logarithm exceeds `w`.
pub proof fn lemma_ceil_log2_above(x: nat, w: nat)
    requires
        x > pow2(w),
    ensures
        ceil_log2(x) > w,
    decreases w,
{
    lemma_pow2_pos(w);
    let y = (x + 1) / 2;
    assert(ceil_log2(x) == 1 + ceil_log2(y));
    if w > 0 {
        lemma_pow2_unfold(w);
        lemma_ceil_log2_above(y, (w - 1) as nat);
    }
}

/// No value exceeds two to the power of its logarithm.
pub proof fn lemma_ceil_log2_covers(x: nat)
    ensures
        x <= pow2(ceil_log2(x)),
    decreases x,
{
    if x <= 1 {
        assert(pow2(0) == 1) by {
            lemma2_to64();
        }
    } else {
        let y = (x + 1) / 2;
        lemma_ceil_log2_covers(y);
        assert(ceil_log2(x) == 1 + ceil_log2(y));
        lemma_pow2_unfold(ceil_log2(x));
    }
}

/// Where the code of class `k` is stored compressed, every code below
/// `C(64, k)` fits in its width.
pub proof fn lemma_code_fits(k: nat)
    ensures
        code_width(k) <= MAX_CODE_BITS || code_width(k) == RAW_BITS,
        code_width(k) <= MAX_CODE_BITS ==> binomial(64, k) <= pow2(code_width(k)),
{
    lemma_ceil_log2_covers(binomial(64, k));
}

/// Row 0 of Pascal's triangle.
proof fn lemma_binomial_row_0()
    ensures
        binomial(0, 0) == 1,
        binomial(0, 1) == 0,
{
    lemma_binomial_zero(0, 1);
}

/// Row 1 of Pascal's triangle.
proof fn lemma_binomial_row_1()
    ensures
        binomial(1, 0) == 1,
        binomial(1, 1) == 1,
        binomial(1, 2) == 0,
{
    lemma_binomial_row_0();
    lemma_binomial_zero(1, 2);
}

/// Row 2 of Pascal's triangle.
proof fn lemma_binomial_row_2()
    ensures
        binomial(2, 0) == 1,
        binomial(2, 1) == 2,
        binomial(2, 2) == 1,
        binomial(2, 3) == 0,
{
    lemma_binomial_row_1();
    lemma_binomial_zero(2, 3);
}

/// Row 3 of Pascal's triangle.
proof fn lemma_binomial_row_3()
    ensures
        binomial(3, 0) == 1,
        binomial(3, 1) == 3,
        binomial(3, 2) == 3,
        binomial(3, 3) == 1,
        binomial(3, 4) == 0,
{
    lemma_binomial_row_2();
    lemma_binomial_zero(3, 4);
}

/// Row 4 of Pascal's triangle.
proof fn lemma_binomial_row_4()
    ensures
        binomial(4, 0) == 1,
        binomial(4, 1) == 4,
        binomial(4, 2) == 6,
        binomial(4, 3) == 4,
        binomial(4, 4) == 1,
        binomial(4, 5) == 0,
{
    lemma_binomial_row_3();
    lemma_binomial_zero(4, 5);
}

/// Row 5 of Pascal's triangle.
proof fn lemma_binomial_row_5()
    ensures
        binomial(5, 0) == 1,
        binomial(5, 1) == 5,
        binomial(5, 2) == 10,
        binomial(5, 3) == 10,
        binomial(5, 4) == 5,
        binomial(5, 5) == 1,
        binomial(5, 6) == 0,
{
    lemma_binomial_row_4();
    lemma_binomial_zero(5, 6);
}

/// Row 6 of Pascal's triangle.
proof fn lemma_binomial_row_6()
    ensures
        binomial(6, 0) == 1,
        binomial(6, 1) == 6,
        binomial(6, 2) == 15,
        binomial(6, 3) == 20,
        binomial(6, 4) == 15,
        binomial(6, 5) == 6,
        binomial(6, 6) == 1,
        binomial(6, 7) == 0,
{
    lemma_binomial_row_5();
    lemma_binomial_zero(6, 7);
}

/// Row 7 of Pascal's triangle.
proof fn lemma_binomial_row_7()
    ensures
        binomial(7, 0) == 1,
        binomial(7, 1) == 7,
        binomial(7, 2) == 21,
        binomial(7, 3) == 35,
        binomial(7, 4) == 35,
        binomial(7, 5) == 21,
        binomial(7, 6) == 7,
        binomial(7, 7) == 1,
        binomial(7, 8) == 0,
{
    lemma_binomial_row_6();
    lemma_binomial_zero(7, 8);
}

/// Row 8 of Pascal's triangle.
proof fn lemma_binomial_row_8()
    ensures
        binomial(8, 0) == 1,
        binomial(8, 1) == 8,
        binomial(8, 2) == 28,
        binomial(8, 3) == 56,
        binomial(8, 4) == 70,
        binomial(8, 5) == 56,
        binomial(8, 6) == 28,
        binomial(8, 7) == 8,
        binomial(8, 8) == 1,
        binomial(8, 9) == 0,
{
    lemma_binomial_row_7();
    lemma_binomial_zero(8, 9);
}

/// Row 9 of Pascal's triangle.
proof fn lemma_binomial_row_9()
    ensures
        binomial(9, 0) == 1,
        binomial(9, 1) == 9,
        binomial(9, 2) == 36,
        binomial(9, 3) == 84,
        binomial(9, 4) == 126,
        binomial(9, 5) == 126,
        binomial(9, 6) == 84,
        binomial(9, 7) == 36,
        binomial(9, 8) == 9,
        binomial(9, 9) == 1,
        binomial(9, 10) == 0,
{
    lemma_binomial_row_8();
    lemma_binomial_zero(9, 10);
}

/// Row 10 of Pascal's triangle.
proof fn lemma_binomial_row_10()
    ensures
        binomial(10, 0) == 1,
        binomial(10, 1) == 10,
        binomial(10, 2) == 45,
        binomial(10, 3) == 120,
        binomial(10, 4) == 210,
        binomial(10, 5) == 252,
        binomial(10, 6) == 210,
        binomial(10, 7) == 120,
        binomial(10, 8) == 45,
        binomial(10, 9) == 10,
        binomial(10, 10) == 1,
        binomial(10, 11) == 0,
{
    lemma_binomial_row_9();
    lemma_binomial_zero(10, 11);
}

/// Row 11 of Pascal's triangle.
proof fn lemma_binomial_row_11()
    ensures
        binomial(11, 0) == 1,
        binomial(11, 1) == 11,
        binomial(11, 2) == 55,
        binomial(11, 3) == 165,
        binomial(11, 4) == 330,
        binomial(11, 5) == 462,
        binomial(11, 6) == 462,
        binomial(11, 7) == 330,
        binomial(11, 8) == 165,
        binomial(11, 9) == 55,
        binomial(11, 10) == 11,
        binomial(11, 11) == 1,
        binomial(11, 12) == 0,
{
    lemma_binomial_row_10();
    lemma_binomial_zero(11, 12);
}

/// Row 12 of Pascal's triangle.
proof fn lemma_binomial_row_12()
    ensures
        binomial(12, 0) == 1,
        binomial(12, 1) == 12,
        binomial(12, 2) == 66,
        binomial(12, 3) == 220,
        binomial(12, 4) == 495,
        binomial(12, 5) == 792,
        binomial(12, 6) == 924,
        binomial(12, 7) == 792,
        binomial(12, 8) == 495,
        binomial(12, 9) == 220,
        binomial(12, 10) == 66,
        binomial(12, 11) == 12,
        binomial(12, 12) == 1,
        binomial(12, 13) == 0,
{
    lemma_binomial_row_11();
    lemma_binomial_zero(12, 13);
}

/// Row 13 of Pascal's triangle.
proof fn lemma_binomial_row_13()
    ensures
        binomial(13, 0) == 1,
        binomial(13, 1) == 13,
        binomial(13, 2) == 78,
        binomial(13, 3) == 286,
        binomial(13, 4) == 715,
        binomial(13, 5) == 1287,
        binomial(13, 6) == 1716,
        binomial(13, 7) == 1716,
        binomial(13, 8) == 1287,
        binomial(13, 9) == 715,
        binomial(13, 10) == 286,
        binomial(13, 11) == 78,
        binomial(13, 12) == 13,
        binomial(13, 13) == 1,
        binomial(13, 14) == 0,
{
    lemma_binomial_row_12();
    lemma_binomial_zero(13, 14);
}

/// Row 14 of Pascal's triangle.
proof fn lemma_binomial_row_14()
    ensures
        binomial(14, 0) == 1,
        binomial(14, 1) == 14,
        binomial(14, 2) == 91,
        binomial(14, 3) == 364,
        binomial(14, 4) == 1001,
        binomial(14, 5) == 2002,
        binomial(14, 6) == 3003,
        binomial(14, 7) == 3432,
        binomial(14, 8) == 3003,
        binomial(14, 9) == 2002,
        binomial(14, 10) == 1001,
        binomial(14, 11) == 364,
        binomial(14, 12) == 91,
        binomial(14, 13) == 14,
        binomial(14, 14) == 1,
        binomial(14, 15) == 0,
{
    lemma_binomial_row_13();
    lemma_binomial_zero(14, 15);
}

/// Row 15 of Pascal's triangle.
proof fn lemma_binomial_row_15()
    ensures
        binomial(15, 0) == 1,
        binomial(15, 1) == 15,
        binomial(15, 2) == 105,
        binomial(15, 3) == 455,
        binomial(15, 4) == 1365,
        binomial(15, 5) == 3003,
        binomial(15, 6) == 5005,
        binomial(15, 7) == 6435,
        binomial(15, 8) == 6435,
        binomial(15, 9) == 5005,
        binomial(15, 10) == 3003,
        binomial(15, 11) == 1365,
        binomial(15, 12) == 455,
        binomial(15, 13) == 105,
        binomial(15, 14) == 15,
        binomial(15, 15) == 1,
        binomial(15, 16) == 0,
{
    lemma_binomial_row_14();
    lemma_binomial_zero(15, 16);
}

/// Row 16 of Pascal's triangle.
proof fn lemma_binomial_row_16()
    ensures
        binomial(16, 0) == 1,
        binomial(16, 1) == 16,
        binomial(16, 2) == 120,
        binomial(16, 3) == 560,
        binomial(16, 4) == 1820,
        binomial(16, 5) == 4368,
        binomial(16, 6) == 8008,
        binomial(16, 7) == 11440,
        binomial(16, 8) == 12870,
        binomial(16, 9) == 11440,
        binomial(16, 10) == 8008,
        binomial(16, 11) == 4368,
        binomial(16, 12) == 1820,
        binomial(16, 13) == 560,
        binomial(16, 14) == 120,
        binomial(16, 15) == 16,
        binomial(16, 16) == 1,
        binomial(16, 17) == 0,
{
    lemma_binomial_row_15();
    lemma_binomial_zero(16, 17);
}

/// Row 17 of Pascal's triangle.
proof fn lemma_binomial_row_17()
    ensures
        binomial(17, 0) == 1,
        binomial(17, 1) == 17,
        binomial(17, 2) == 136,
        binomial(17, 3) == 680,
        binomial(17, 4) == 2380,
        binomial(17, 5) == 6188,
        binomial(17, 6) == 12376,
        binomial(17, 7) == 19448,
        binomial(17, 8) == 24310,
        binomial(17, 9) == 24310,
        binomial(17, 10) == 19448,
        binomial(17, 11) == 12376,
        binomial(17, 12) == 6188,
        binomial(17, 13) == 2380,
        binomial(17, 14) == 680,
        binomial(17, 15) == 136,
        binomial(17, 16) == 17,
        binomial(17, 17) == 1,
        binomial(17, 18) == 0,
{
    lemma_binomial_row_16();
    lemma_binomial_zero(17, 18);
}

/// Row 18 of Pascal's triangle.
proof fn lemma_binomial_row_18()
    ensures
        binomial(18, 0) == 1,
        binomial(18, 1) == 18,
        binomial(18, 2) == 153,
        binomial(18, 3) == 816,
        binomial(18, 4) == 3060,
        binomial(18, 5) == 8568,
        binomial(18, 6) == 18564,
        binomial(18, 7) == 31824,
        binomial(18, 8) == 43758,
        binomial(18, 9) == 48620,
        binomial(18, 10) == 43758,
        binomial(18, 11) == 31824,
        binomial(18, 12) == 18564,
        binomial(18, 13) == 8568,
        binomial(18, 14) == 3060,
        binomial(18, 15) == 816,
        binomial(18, 16) == 153,
        binomial(18, 17) == 18,
        binomial(18, 18) == 1,
        binomial(18, 19) == 0,
{
    lemma_binomial_row_17();
    lemma_binomial_zero(18, 19);
}

/// Row 19 of Pascal's triangle.
proof fn lemma_binomial_row_19()
    ensures
        binomial(19, 0) == 1,
        binomial(19, 1) == 19,
        binomial(19, 2) == 171,
        binomial(19, 3) == 969,
        binomial(19, 4) == 3876,
        binomial(19, 5) == 11628,
        binomial(19, 6) == 27132,
        binomial(19, 7) == 50388,
        binomial(19, 8) == 75582,
        binomial(19, 9) == 92378,
        binomial(19, 10) == 92378,
        binomial(19, 11) == 75582,
        binomial(19, 12) == 50388,
        binomial(19, 13) == 27132,
        binomial(19, 14) == 11628,
        binomial(19, 15) == 3876,
        binomial(19, 16) == 969,
        binomial(19, 17) == 171,
        binomial(19, 18) == 19,
        binomial(19, 19) == 1,
        binomial(19, 20) == 0,
{
    lemma_binomial_row_18();
    lemma_binomial_zero(19, 20);
}

/// Row 20 of Pascal's triangle.
proof fn lemma_binomial_row_20()
    ensures
        binomial(20, 0) == 1,
        binomial(20, 1) == 20,
        binomial(20, 2) == 190,
        binomial(20, 3) == 1140,
        binomial(20, 4) == 4845,
        binomial(20, 5) == 15504,
        binomial(20, 6) == 38760,
        binomial(20, 7) == 77520,
        binomial(20, 8) == 125970,
        binomial(20, 9) == 167960,
        binomial(20, 10) == 184756,
        binomial(20, 11) == 167960,
        binomial(20, 12) == 125970,
        binomial(20, 13) == 77520,
        binomial(20, 14) == 38760,
        binomial(20, 15) == 15504,
        binomial(20, 16) == 4845,
        binomial(20, 17) == 1140,
        binomial(20, 18) == 190,
        binomial(20, 19) == 20,
        binomial(20, 20) == 1,
        binomial(20, 21) == 0,
{
    lemma_binomial_row_19();
    lemma_binomial_zero(20, 21);
}

/// Row 21 of Pascal's triangle.
proof fn lemma_binomial_row_21()
    ensures
        binomial(21, 0) == 1,
        binomial(21, 1) == 21,
        binomial(21, 2) == 210,
        binomial(21, 3) == 1330,
        binomial(21, 4) == 5985,
        binomial(21, 5) == 20349,
        binomial(21, 6) == 54264,
        binomial(21, 7) == 116280,
        binomial(21, 8) == 203490,
        binomial(21, 9) == 293930,
        binomial(21, 10) == 352716,
        binomial(21, 11) == 352716,
        binomial(21, 12) == 293930,
        binomial(21, 13) == 203490,
        binomial(21, 14) == 116280,
        binomial(21, 15) == 54264,
        binomial(21, 16) == 20349,
        binomial(21, 17) == 5985,
        binomial(21, 18) == 1330,
        binomial(21, 19) == 210,
        binomial(21, 20) == 21,
        binomial(21, 21) == 1,
        binomial(21, 22) == 0,
{
    lemma_binomial_row_20();
    lemma_binomial_zero(21, 22);
}

/// Row 22 of Pascal's triangle.
proof fn lemma_binomial_row_22()
    ensures
        binomial(22, 0) == 1,
        binomial(22, 1) == 22,
        binomial(22, 2) == 231,
        binomial(22, 3) == 1540,
        binomial(22, 4) == 7315,
        binomial(22, 5) == 26334,
        binomial(22, 6) == 74613,
        binomial(22, 7) == 170544,
        binomial(22, 8) == 319770,
        binomial(22, 9) == 497420,
        binomial(22, 10) == 646646,
        binomial(22, 11) == 705432,
        binomial(22, 12) == 646646,
        binomial(22, 13) == 497420,
        binomial(22, 14) == 319770,
        binomial(22, 15) == 170544,
        binomial(22, 16) == 74613,
        binomial(22, 17) == 26334,
        binomial(22, 18) == 7315,
        binomial(22, 19) == 1540,
        binomial(22, 20) == 231,
        binomial(22, 21) == 22,
        binomial(22, 22) == 1,
        binomial(22, 23) == 0,
{
    lemma_binomial_row_21();
    lemma_binomial_zero(22, 23);
}

/// Row 23 of Pascal's triangle.
proof fn lemma_binomial_row_23()
    ensures
        binomial(23, 0) == 1,
        binomial(23, 1) == 23,
        binomial(23, 2) == 253,
        binomial(23, 3) == 1771,
        binomial(23, 4) == 8855,
        binomial(23, 5) == 33649,
        binomial(23, 6) == 100947,
        binomial(23, 7) == 245157,
        binomial(23, 8) == 490314,
        binomial(23, 9) == 817190,
        binomial(23, 10) == 1144066,
        binomial(23, 11) == 1352078,
        binomial(23, 12) == 1352078,
        binomial(23, 13) == 1144066,
        binomial(23, 14) == 817190,
        binomial(23, 15) == 490314,
        binomial(23, 16) == 245157,
        binomial(23, 17) == 100947,
        binomial(23, 18) == 33649,
        binomial(23, 19) == 8855,
        binomial(23, 20) == 1771,
        binomial(23, 21) == 253,
        binomial(23, 22) == 23,
        binomial(23, 23) == 1,
        binomial(23, 24) == 0,
{
    lemma_binomial_row_22();
    lemma_binomial_zero(23, 24);
}

/// Row 24 of Pascal's triangle.
proof fn lemma_binomial_row_24()
    ensures
        binomial(24, 0) == 1,
        binomial(24, 1) == 24,
        binomial(24, 2) == 276,
        binomial(24, 3) == 2024,
        binomial(24, 4) == 10626,
        binomial(24, 5) == 42504,
        binomial(24, 6) == 134596,
        binomial(24, 7) == 346104,
        binomial(24, 8) == 735471,
        binomial(24, 9) == 1307504,
        binomial(24, 10) == 1961256,
        binomial(24, 11) == 2496144,
        binomial(24, 12) == 2704156,
        binomial(24, 13) == 2496144,
        binomial(24, 14) == 1961256,
        binomial(24, 15) == 1307504,
        binomial(24, 16) == 735471,
        binomial(24, 17) == 346104,
        binomial(24, 18) == 134596,
        binomial(24, 19) == 42504,
        binomial(24, 20) == 10626,
        binomial(24, 21) == 2024,
        binomial(24, 22) == 276,
        binomial(24, 23) == 24,
        binomial(24, 24) == 1,
        binomial(24, 25) == 0,
{
    lemma_binomial_row_23();
    lemma_binomial_zero(24, 25);
}

/// Row 25 of Pascal's triangle.
proof fn lemma_binomial_row_25()
    ensures
        binomial(25, 0) == 1,
        binomial(25, 1) == 25,
        binomial(25, 2) == 300,
        binomial(25, 3) == 2300,
        binomial(25, 4) == 12650,
        binomial(25, 5) == 53130,
        binomial(25, 6) == 177100,
        binomial(25, 7) == 480700,
        binomial(25, 8) == 1081575,
        binomial(25, 9) == 2042975,
        binomial(25, 10) == 3268760,
        binomial(25, 11) == 4457400,
        binomial(25, 12) == 5200300,
        binomial(25, 13) == 5200300,
        binomial(25, 14) == 4457400,
        binomial(25, 15) == 3268760,
        binomial(25, 16) == 2042975,
        binomial(25, 17) == 1081575,
        binomial(25, 18) == 480700,
        binomial(25, 19) == 177100,
        binomial(25, 20) == 53130,
        binomial(25, 21) == 12650,
        binomial(25, 22) == 2300,
        binomial(25, 23) == 300,
        binomial(25, 24) == 25,
        binomial(25, 25) == 1,
        binomial(25, 26) == 0,
{
    lemma_binomial_row_24();
    lemma_binomial_zero(25, 26);
}

/// Row 26 of Pascal's triangle.
proof fn lemma_binomial_row_26()
    ensures
        binomial(26, 0) == 1,
        binomial(26, 1) == 26,
        binomial(26, 2) == 325,
        binomial(26, 3) == 2600,
        binomial(26, 4) == 14950,
        binomial(26, 5) == 65780,
        binomial(26, 6) == 230230,
        binomial(26, 7) == 657800,
        binomial(26, 8) == 1562275,
        binomial(26, 9) == 3124550,
        binomial(26, 10) == 5311735,
        binomial(26, 11) == 7726160,
        binomial(26, 12) == 9657700,
        binomial(26, 13) == 10400600,
        binomial(26, 14) == 9657700,
        binomial(26, 15) == 7726160,
        binomial(26, 16) == 5311735,
        binomial(26, 17) == 3124550,
        binomial(26, 18) == 1562275,
        binomial(26, 19) == 657800,
        binomial(26, 20) == 230230,
        binomial(26, 21) == 65780,
        binomial(26, 22) == 14950,
        binomial(26, 23) == 2600,
        binomial(26, 24) == 325,
        binomial(26, 25) == 26,
        binomial(26, 26) == 1,
        binomial(26, 27) == 0,
{
    lemma_binomial_row_25();
    lemma_binomial_zero(26, 27);
}

/// Row 27 of Pascal's triangle.
proof fn lemma_binomial_row_27()
    ensures
        binomial(27, 0) == 1,
        binomial(27, 1) == 27,
        binomial(27, 2) == 351,
        binomial(27, 3) == 2925,
        binomial(27, 4) == 17550,
        binomial(27, 5) == 80730,
        binomial(27, 6) == 296010,
        binomial(27, 7) == 888030,
        binomial(27, 8) == 2220075,
        binomial(27, 9) == 4686825,
        binomial(27, 10) == 8436285,
        binomial(27, 11) == 13037895,
        binomial(27, 12) == 17383860,
        binomial(27, 13) == 20058300,
        binomial(27, 14) == 20058300,
        binomial(27, 15) == 17383860,
        binomial(27, 16) == 13037895,
        binomial(27, 17) == 8436285,
        binomial(27, 18) == 4686825,
        binomial(27, 19) == 2220075,
        binomial(27, 20) == 888030,
        binomial(27, 21) == 296010,
        binomial(27, 22) == 80730,
        binomial(27, 23) == 17550,
        binomial(27, 24) == 2925,
        binomial(27, 25) == 351,
        binomial(27, 26) == 27,
        binomial(27, 27) == 1,
        binomial(27, 28) == 0,
{
    lemma_binomial_row_26();
    lemma_binomial_zero(27, 28);
}

/// Row 28 of Pascal's triangle.
proof fn lemma_binomial_row_28()
    ensures
        binomial(28, 0) == 1,
        binomial(28, 1) == 28,
        binomial(28, 2) == 378,
        binomial(28, 3) == 3276,
        binomial(28, 4) == 20475,
        binomial(28, 5) == 98280,
        binomial(28, 6) == 376740,
        binomial(28, 7) == 1184040,
        binomial(28, 8) == 3108105,
        binomial(28, 9) == 6906900,
        binomial(28, 10) == 13123110,
        binomial(28, 11) == 21474180,
        binomial(28, 12) == 30421755,
        binomial(28, 13) == 37442160,
        binomial(28, 14) == 40116600,
        binomial(28, 15) == 37442160,
        binomial(28, 16) == 30421755,
        binomial(28, 17) == 21474180,
        binomial(28, 18) == 13123110,
        binomial(28, 19) == 6906900,
        binomial(28, 20) == 3108105,
        binomial(28, 21) == 1184040,
        binomial(28, 22) == 376740,
        binomial(28, 23) == 98280,
        binomial(28, 24) == 20475,
        binomial(28, 25) == 3276,
        binomial(28, 26) == 378,
        binomial(28, 27) == 28,
        binomial(28, 28) == 1,
        binomial(28, 29) == 0,
{
    lemma_binomial_row_27();
    lemma_binomial_zero(28, 29);
}

/// Row 29 of Pascal's triangle.
proof fn lemma_binomial_row_29()
    ensures
        binomial(29, 0) == 1,
        binomial(29, 1) == 29,
        binomial(29, 2) == 406,
        binomial(29, 3) == 3654,
        binomial(29, 4) == 23751,
        binomial(29, 5) == 118755,
        binomial(29, 6) == 475020,
        binomial(29, 7) == 1560780,
        binomial(29, 8) == 4292145,
        binomial(29, 9) == 10015005,
        binomial(29, 10) == 20030010,
        binomial(29, 11) == 34597290,
        binomial(29, 12) == 51895935,
        binomial(29, 13) == 67863915,
        binomial(29, 14) == 77558760,
        binomial(29, 15) == 77558760,
        binomial(29, 16) == 67863915,
        binomial(29, 17) == 51895935,
        binomial(29, 18) == 34597290,
        binomial(29, 19) == 20030010,
        binomial(29, 20) == 10015005,
        binomial(29, 21) == 4292145,
        binomial(29, 22) == 1560780,
        binomial(29, 23) == 475020,
        binomial(29, 24) == 118755,
        binomial(29, 25) == 23751,
        binomial(29, 26) == 3654,
        binomial(29, 27) == 406,
        binomial(29, 28) == 29,
        binomial(29, 29) == 1,
        binomial(29, 30) == 0,
{
    lemma_binomial_row_28();
    lemma_binomial_zero(29, 30);
}

/// Row 30 of Pascal's triangle.
proof fn lemma_binomial_row_30()
    ensures
        binomial(30, 0) == 1,
        binomial(30, 1) == 30,
        binomial(30, 2) == 435,
        binomial(30, 3) == 4060,
        binomial(30, 4) == 27405,
        binomial(30, 5) == 142506,
        binomial(30, 6) == 593775,
        binomial(30, 7) == 2035800,
        binomial(30, 8) == 5852925,
        binomial(30, 9) == 14307150,
        binomial(30, 10) == 30045015,
        binomial(30, 11) == 54627300,
        binomial(30, 12) == 86493225,
        binomial(30, 13) == 119759850,
        binomial(30, 14) == 145422675,
        binomial(30, 15) == 155117520,
        binomial(30, 16) == 145422675,
        binomial(30, 17) == 119759850,
        binomial(30, 18) == 86493225,
        binomial(30, 19) == 54627300,
        binomial(30, 20) == 30045015,
        binomial(30, 21) == 14307150,
        binomial(30, 22) == 5852925,
        binomial(30, 23) == 2035800,
        binomial(30, 24) == 593775,
        binomial(30, 25) == 142506,
        binomial(30, 26) == 27405,
        binomial(30, 27) == 4060,
        binomial(30, 28) == 435,
        binomial(30, 29) == 30,
        binomial(30, 30) == 1,
        binomial(30, 31) == 0,
{
    lemma_binomial_row_29();
    lemma_binomial_zero(30, 31);
}

/// Row 31 of Pascal's triangle.
proof fn lemma_binomial_row_31()
    ensures
        binomial(31, 0) == 1,
        binomial(31, 1) == 31,
        binomial(31, 2) == 465,
        binomial(31, 3) == 4495,
        binomial(31, 4) == 31465,
        binomial(31, 5) == 169911,
        binomial(31, 6) == 736281,
        binomial(31, 7) == 2629575,
        binomial(31, 8) == 7888725,
        binomial(31, 9) == 20160075,
        binomial(31, 10) == 44352165,
        binomial(31, 11) == 84672315,
        binomial(31, 12) == 141120525,
        binomial(31, 13) == 206253075,
        binomial(31, 14) == 265182525,
        binomial(31, 15) == 300540195,
        binomial(31, 16) == 300540195,
        binomial(31, 17) == 265182525,
        binomial(31, 18) == 206253075,
        binomial(31, 19) == 141120525,
        binomial(31, 20) == 84672315,
        binomial(31, 21) == 44352165,
        binomial(31, 22) == 20160075,
        binomial(31, 23) == 7888725,
        binomial(31, 24) == 2629575,
        binomial(31, 25) == 736281,
        binomial(31, 26) == 169911,
        binomial(31, 27) == 31465,
        binomial(31, 28) == 4495,
        binomial(31, 29) == 465,
        binomial(31, 30) == 31,
        binomial(31, 31) == 1,
        binomial(31, 32) == 0,
{
    lemma_binomial_row_30();
    lemma_binomial_zero(31, 32);
}

/// Row 32 of Pascal's triangle.
proof fn lemma_binomial_row_32()
    ensures
        binomial(32, 0) == 1,
        binomial(32, 1) == 32,
        binomial(32, 2) == 496,
        binomial(32, 3) == 4960,
        binomial(32, 4) == 35960,
        binomial(32, 5) == 201376,
        binomial(32, 6) == 906192,
        binomial(32, 7) == 3365856,
        binomial(32, 8) == 10518300,
        binomial(32, 9) == 28048800,
        binomial(32, 10) == 64512240,
        binomial(32, 11) == 129024480,
        binomial(32, 12) == 225792840,
        binomial(32, 13) == 347373600,
        binomial(32, 14) == 471435600,
        binomial(32, 15) == 565722720,
        binomial(32, 16) == 601080390,
        binomial(32, 17) == 565722720,
        binomial(32, 18) == 471435600,
        binomial(32, 19) == 347373600,
        binomial(32, 20) == 225792840,
        binomial(32, 21) == 129024480,
        binomial(32, 22) == 64512240,
        binomial(32, 23) == 28048800,
        binomial(32, 24) == 10518300,
        binomial(32, 25) == 3365856,
        binomial(32, 26) == 906192,
        binomial(32, 27) == 201376,
        binomial(32, 28) == 35960,
        binomial(32, 29) == 4960,
        binomial(32, 30) == 496,
        binomial(32, 31) == 32,
        binomial(32, 32) == 1,
        binomial(32, 33) == 0,
{
    lemma_binomial_row_31();
    lemma_binomial_zero(32, 33);
}

/// Row 33 of Pascal's triangle.
proof fn lemma_binomial_row_33()
    ensures
        binomial(33, 0) == 1,
        binomial(33, 1) == 33,
        binomial(33, 2) == 528,
        binomial(33, 3) == 5456,
        binomial(33, 4) == 40920,
        binomial(33, 5) == 237336,
        binomial(33, 6) == 1107568,
        binomial(33, 7) == 4272048,
        binomial(33, 8) == 13884156,
        binomial(33, 9) == 38567100,
        binomial(33, 10) == 92561040,
        binomial(33, 11) == 193536720,
        binomial(33, 12) == 354817320,
        binomial(33, 13) == 573166440,
        binomial(33, 14) == 818809200,
        binomial(33, 15) == 1037158320,
        binomial(33, 16) == 1166803110,
        binomial(33, 17) == 1166803110,
        binomial(33, 18) == 1037158320,
        binomial(33, 19) == 818809200,
        binomial(33, 20) == 573166440,
        binomial(33, 21) == 354817320,
        binomial(33, 22) == 193536720,
        binomial(33, 23) == 92561040,
        binomial(33, 24) == 38567100,
        binomial(33, 25) == 13884156,
        binomial(33, 26) == 4272048,
        binomial(33, 27) == 1107568,
        binomial(33, 28) == 237336,
        binomial(33, 29) == 40920,
        binomial(33, 30) == 5456,
        binomial(33, 31) == 528,
        binomial(33, 32) == 33,
        binomial(33, 33) == 1,
        binomial(33, 34) == 0,
{
    lemma_binomial_row_32();
    lemma_binomial_zero(33, 34);
}

/// Row 34 of Pascal's triangle.
proof fn lemma_binomial_row_34()
    ensures
        binomial(34, 0) == 1,
        binomial(34, 1) == 34,
        binomial(34, 2) == 561,
        binomial(34, 3) == 5984,
        binomial(34, 4) == 46376,
        binomial(34, 5) == 278256,
        binomial(34, 6) == 1344904,
        binomial(34, 7) == 5379616,
        binomial(34, 8) == 18156204,
        binomial(34, 9) == 52451256,
        binomial(34, 10) == 131128140,
        binomial(34, 11) == 286097760,
        binomial(34, 12) == 548354040,
        binomial(34, 13) == 927983760,
        binomial(34, 14) == 1391975640,
        binomial(34, 15) == 1855967520,
        binomial(34, 16) == 2203961430,
        binomial(34, 17) == 2333606220,
        binomial(34, 18) == 2203961430,
        binomial(34, 19) == 1855967520,
        binomial(34, 20) == 1391975640,
        binomial(34, 21) == 927983760,
        binomial(34, 22) == 548354040,
        binomial(34, 23) == 286097760,
        binomial(34, 24) == 131128140,
        binomial(34, 25) == 52451256,
        binomial(34, 26) == 18156204,
        binomial(34, 27) == 5379616,
        binomial(34, 28) == 1344904,
        binomial(34, 29) == 278256,
        binomial(34, 30) == 46376,
        binomial(34, 31) == 5984,
        binomial(34, 32) == 561,
        binomial(34, 33) == 34,
        binomial(34, 34) == 1,
        binomial(34, 35) == 0,
{
    lemma_binomial_row_33();
    lemma_binomial_zero(34, 35);
}

/// Row 35 of Pascal's triangle.
proof fn lemma_binomial_row_35()
    ensures
        binomial(35, 0) == 1,
        binomial(35, 1) == 35,
        binomial(35, 2) == 595,
        binomial(35, 3) == 6545,
        binomial(35, 4) == 52360,
        binomial(35, 5) == 324632,
        binomial(35, 6) == 1623160,
        binomial(35, 7) == 6724520,
        binomial(35, 8) == 23535820,
        binomial(35, 9) == 70607460,
        binomial(35, 10) == 183579396,
        binomial(35, 11) == 417225900,
        binomial(35, 12) == 834451800,
        binomial(35, 13) == 1476337800,
        binomial(35, 14) == 2319959400,
        binomial(35, 15) == 3247943160,
        binomial(35, 16) == 4059928950,
        binomial(35, 17) == 4537567650,
        binomial(35, 18) == 4537567650,
        binomial(35, 19) == 4059928950,
        binomial(35, 20) == 3247943160,
        binomial(35, 21) == 2319959400,
        binomial(35, 22) == 1476337800,
        binomial(35, 23) == 834451800,
        binomial(35, 24) == 417225900,
        binomial(35, 25) == 183579396,
        binomial(35, 26) == 70607460,
        binomial(35, 27) == 23535820,
        binomial(35, 28) == 6724520,
        binomial(35, 29) == 1623160,
        binomial(35, 30) == 324632,
        binomial(35, 31) == 52360,
        binomial(35, 32) == 6545,
        binomial(35, 33) == 595,
        binomial(35, 34) == 35,
        binomial(35, 35) == 1,
        binomial(35, 36) == 0,
{
    lemma_binomial_row_34();
    lemma_binomial_zero(35, 36);
}

/// Row 36 of Pascal's triangle.
proof fn lemma_binomial_row_36()
    ensures
        binomial(36, 0) == 1,
        binomial(36, 1) == 36,
        binomial(36, 2) == 630,
        binomial(36, 3) == 7140,
        binomial(36, 4) == 58905,
        binomial(36, 5) == 376992,
        binomial(36, 6) == 1947792,
        binomial(36, 7) == 8347680,
        binomial(36, 8) == 30260340,
        binomial(36, 9) == 94143280,
        binomial(36, 10) == 254186856,
        binomial(36, 11) == 600805296,
        binomial(36, 12) == 1251677700,
        binomial(36, 13) == 2310789600,
        binomial(36, 14) == 3796297200,
        binomial(36, 15) == 5567902560,
        binomial(36, 16) == 7307872110,
        binomial(36, 17) == 8597496600,
        binomial(36, 18) == 9075135300,
        binomial(36, 19) == 8597496600,
        binomial(36, 20) == 7307872110,
        binomial(36, 21) == 5567902560,
        binomial(36, 22) == 3796297200,
        binomial(36, 23) == 2310789600,
        binomial(36, 24) == 1251677700,
        binomial(36, 25) == 600805296,
        binomial(36, 26) == 254186856,
        binomial(36, 27) == 94143280,
        binomial(36, 28) == 30260340,
        binomial(36, 29) == 8347680,
        binomial(36, 30) == 1947792,
        binomial(36, 31) == 376992,
        binomial(36, 32) == 58905,
        binomial(36, 33) == 7140,
        binomial(36, 34) == 630,
        binomial(36, 35) == 36,
        binomial(36, 36) == 1,
        binomial(36, 37) == 0,
{
    lemma_binomial_row_35();
    lemma_binomial_zero(36, 37);
}

/// Row 37 of Pascal's triangle.
proof fn lemma_binomial_row_37()
    ensures
        binomial(37, 0) == 1,
        binomial(37, 1) == 37,
        binomial(37, 2) == 666,
        binomial(37, 3) == 7770,
        binomial(37, 4) == 66045,
        binomial(37, 5) == 435897,
        binomial(37, 6) == 2324784,
        binomial(37, 7) == 10295472,
        binomial(37, 8) == 38608020,
        binomial(37, 9) == 124403620,
        binomial(37, 10) == 348330136,
        binomial(37, 11) == 854992152,
        binomial(37, 12) == 1852482996,
        binomial(37, 13) == 3562467300,
        binomial(37, 14) == 6107086800,
        binomial(37, 15) == 9364199760,
        binomial(37, 16) == 12875774670,
        binomial(37, 17) == 15905368710,
        binomial(37, 18) == 17672631900,
        binomial(37, 19) == 17672631900,
        binomial(37, 20) == 15905368710,
        binomial(37, 21) == 12875774670,
        binomial(37, 22) == 9364199760,
        binomial(37, 23) == 6107086800,
        binomial(37, 24) == 3562467300,
        binomial(37, 25) == 1852482996,
        binomial(37, 26) == 854992152,
        binomial(37, 27) == 348330136,
        binomial(37, 28) == 124403620,
        binomial(37, 29) == 38608020,
        binomial(37, 30) == 10295472,
        binomial(37, 31) == 2324784,
        binomial(37, 32) == 435897,
        binomial(37, 33) == 66045,
        binomial(37, 34) == 7770,
        binomial(37, 35) == 666,
        binomial(37, 36) == 37,
        binomial(37, 37) == 1,
        binomial(37, 38) == 0,
{
    lemma_binomial_row_36();
    lemma_binomial_zero(37, 38);
}

/// Row 38 of Pascal's triangle.
proof fn lemma_binomial_row_38()
    ensures
        binomial(38, 0) == 1,
        binomial(38, 1) == 38,
        binomial(38, 2) == 703,
        binomial(38, 3) == 8436,
        binomial(38, 4) == 73815,
        binomial(38, 5) == 501942,
        binomial(38, 6) == 2760681,
        binomial(38, 7) == 12620256,
        binomial(38, 8) == 48903492,
        binomial(38, 9) == 163011640,
        binomial(38, 10) == 472733756,
        binomial(38, 11) == 1203322288,
        binomial(38, 12) == 2707475148,
        binomial(38, 13) == 5414950296,
        binomial(38, 14) == 9669554100,
        binomial(38, 15) == 15471286560,
        binomial(38, 16) == 22239974430,
        binomial(38, 17) == 28781143380,
        binomial(38, 18) == 33578000610,
        binomial(38, 19) == 35345263800,
        binomial(38, 20) == 33578000610,
        binomial(38, 21) == 28781143380,
        binomial(38, 22) == 22239974430,
        binomial(38, 23) == 15471286560,
        binomial(38, 24) == 9669554100,
        binomial(38, 25) == 5414950296,
        binomial(38, 26) == 2707475148,
        binomial(38, 27) == 1203322288,
        binomial(38, 28) == 472733756,
        binomial(38, 29) == 163011640,
        binomial(38, 30) == 48903492,
        binomial(38, 31) == 12620256,
        binomial(38, 32) == 2760681,
        binomial(38, 33) == 501942,
        binomial(38, 34) == 73815,
        binomial(38, 35) == 8436,
        binomial(38, 36) == 703,
        binomial(38, 37) == 38,
        binomial(38, 38) == 1,
        binomial(38, 39) == 0,
{
    lemma_binomial_row_37();
    lemma_binomial_zero(38, 39);
}

/// Row 39 of Pascal's triangle.
proof fn lemma_binomial_row_39()
    ensures
        binomial(39, 0) == 1,
        binomial(39, 1) == 39,
        binomial(39, 2) == 741,
        binomial(39, 3) == 9139,
        binomial(39, 4) == 82251,
        binomial(39, 5) == 575757,
        binomial(39, 6) == 3262623,
        binomial(39, 7) == 15380937,
        binomial(39, 8) == 61523748,
        binomial(39, 9) == 211915132,
        binomial(39, 10) == 635745396,
        binomial(39, 11) == 1676056044,
        binomial(39, 12) == 3910797436,
        binomial(39, 13) == 8122425444,
        binomial(39, 14) == 15084504396,
        binomial(39, 15) == 25140840660,
        binomial(39, 16) == 37711260990,
        binomial(39, 17) == 51021117810,
        binomial(39, 18) == 62359143990,
        binomial(39, 19) == 68923264410,
        binomial(39, 20) == 68923264410,
        binomial(39, 21) == 62359143990,
        binomial(39, 22) == 51021117810,
        binomial(39, 23) == 37711260990,
        binomial(39, 24) == 25140840660,
        binomial(39, 25) == 15084504396,
        binomial(39, 26) == 8122425444,
        binomial(39, 27) == 3910797436,
        binomial(39, 28) == 1676056044,
        binomial(39, 29) == 635745396,
        binomial(39, 30) == 211915132,
        binomial(39, 31) == 61523748,
        binomial(39, 32) == 15380937,
        binomial(39, 33) == 3262623,
        binomial(39, 34) == 575757,
        binomial(39, 35) == 82251,
        binomial(39, 36) == 9139,
        binomial(39, 37) == 741,
        binomial(39, 38) == 39,
        binomial(39, 39) == 1,
        binomial(39, 40) == 0,
{
    lemma_binomial_row_38();
    lemma_binomial_zero(39, 40);
}

/// Row 40 of Pascal's triangle.
proof fn lemma_binomial_row_40()
    ensures
        binomial(40, 0) == 1,
        binomial(40, 1) == 40,
        binomial(40, 2) == 780,
        binomial(40, 3) == 9880,
        binomial(40, 4) == 91390,
        binomial(40, 5) == 658008,
        binomial(40, 6) == 3838380,
        binomial(40, 7) == 18643560,
        binomial(40, 8) == 76904685,
        binomial(40, 9) == 273438880,
        binomial(40, 10) == 847660528,
        binomial(40, 11) == 2311801440,
        binomial(40, 12) == 5586853480,
        binomial(40, 13) == 12033222880,
        binomial(40, 14) == 23206929840,
        binomial(40, 15) == 40225345056,
        binomial(40, 16) == 62852101650,
        binomial(40, 17) == 88732378800,
        binomial(40, 18) == 113380261800,
        binomial(40, 19) == 131282408400,
        binomial(40, 20) == 137846528820,
        binomial(40, 21) == 131282408400,
        binomial(40, 22) == 113380261800,
        binomial(40, 23) == 88732378800,
        binomial(40, 24) == 62852101650,
        binomial(40, 25) == 40225345056,
        binomial(40, 26) == 23206929840,
        binomial(40, 27) == 12033222880,
        binomial(40, 28) == 5586853480,
        binomial(40, 29) == 2311801440,
        binomial(40, 30) == 847660528,
        binomial(40, 31) == 273438880,
        binomial(40, 32) == 76904685,
        binomial(40, 33) == 18643560,
        binomial(40, 34) == 3838380,
        binomial(40, 35) == 658008,
        binomial(40, 36) == 91390,
        binomial(40, 37) == 9880,
        binomial(40, 38) == 780,
        binomial(40, 39) == 40,
        binomial(40, 40) == 1,
        binomial(40, 41) == 0,
{
    lemma_binomial_row_39();
    lemma_binomial_zero(40, 41);
}

/// Row 41 of Pascal's triangle.
proof fn lemma_binomial_row_41()
    ensures
        binomial(41, 0) == 1,
        binomial(41, 1) == 41,
        binomial(41, 2) == 820,
        binomial(41, 3) == 10660,
        binomial(41, 4) == 101270,
        binomial(41, 5) == 749398,
        binomial(41, 6) == 4496388,
        binomial(41, 7) == 22481940,
        binomial(41, 8) == 95548245,
        binomial(41, 9) == 350343565,
        binomial(41, 10) == 1121099408,
        binomial(41, 11) == 3159461968,
        binomial(41, 12) == 7898654920,
        binomial(41, 13) == 17620076360,
        binomial(41, 14) == 35240152720,
        binomial(41, 15) == 63432274896,
        binomial(41, 16) == 103077446706,
        binomial(41, 17) == 151584480450,
        binomial(41, 18) == 202112640600,
        binomial(41, 19) == 244662670200,
        binomial(41, 20) == 269128937220,
        binomial(41, 21) == 269128937220,
        binomial(41, 22) == 244662670200,
        binomial(41, 23) == 202112640600,
        binomial(41, 24) == 151584480450,
        binomial(41, 25) == 103077446706,
        binomial(41, 26) == 63432274896,
        binomial(41, 27) == 35240152720,
        binomial(41, 28) == 17620076360,
        binomial(41, 29) == 7898654920,
        binomial(41, 30) == 3159461968,
        binomial(41, 31) == 1121099408,
        binomial(41, 32) == 350343565,
        binomial(41, 33) == 95548245,
        binomial(41, 34) == 22481940,
        binomial(41, 35) == 4496388,
        binomial(41, 36) == 749398,
        binomial(41, 37) == 101270,
        binomial(41, 38) == 10660,
        binomial(41, 39) == 820,
        binomial(41, 40) == 41,
        binomial(41, 41) == 1,
        binomial(41, 42) == 0,
{
    lemma_binomial_row_40();
    lemma_binomial_zero(41, 42);
}

/// Row 42 of Pascal's triangle.
proof fn lemma_binomial_row_42()
    ensures
        binomial(42, 0) == 1,
        binomial(42, 1) == 42,
        binomial(42, 2) == 861,
        binomial(42, 3) == 11480,
        binomial(42, 4) == 111930,
        binomial(42, 5) == 850668,
        binomial(42, 6) == 5245786,
        binomial(42, 7) == 26978328,
        binomial(42, 8) == 118030185,
        binomial(42, 9) == 445891810,
        binomial(42, 10) == 1471442973,
        binomial(42, 11) == 4280561376,
        binomial(42, 12) == 11058116888,
        binomial(42, 13) == 25518731280,
        binomial(42, 14) == 52860229080,
        binomial(42, 15) == 98672427616,
        binomial(42, 16) == 166509721602,
        binomial(42, 17) == 254661927156,
        binomial(42, 18) == 353697121050,
        binomial(42, 19) == 446775310800,
        binomial(42, 20) == 513791607420,
        binomial(42, 21) == 538257874440,
        binomial(42, 22) == 513791607420,
        binomial(42, 23) == 446775310800,
        binomial(42, 24) == 353697121050,
        binomial(42, 25) == 254661927156,
        binomial(42, 26) == 166509721602,
        binomial(42, 27) == 98672427616,
        binomial(42, 28) == 52860229080,
        binomial(42, 29) == 25518731280,
        binomial(42, 30) == 11058116888,
        binomial(42, 31) == 4280561376,
        binomial(42, 32) == 1471442973,
        binomial(42, 33) == 445891810,
        binomial(42, 34) == 118030185,
        binomial(42, 35) == 26978328,
        binomial(42, 36) == 5245786,
        binomial(42, 37) == 850668,
        binomial(42, 38) == 111930,
        binomial(42, 39) == 11480,
        binomial(42, 40) == 861,
        binomial(42, 41) == 42,
        binomial(42, 42) == 1,
        binomial(42, 43) == 0,
{
    lemma_binomial_row_41();
    lemma_binomial_zero(42, 43);
}

/// Row 43 of Pascal's triangle.
proof fn lemma_binomial_row_43()
    ensures
        binomial(43, 0) == 1,
        binomial(43, 1) == 43,
        binomial(43, 2) == 903,
        binomial(43, 3) == 12341,
        binomial(43, 4) == 123410,
        binomial(43, 5) == 962598,
        binomial(43, 6) == 6096454,
        binomial(43, 7) == 32224114,
        binomial(43, 8) == 145008513,
        binomial(43, 9) == 563921995,
        binomial(43, 10) == 1917334783,
        binomial(43, 11) == 5752004349,
        binomial(43, 12) == 15338678264,
        binomial(43, 13) == 36576848168,
        binomial(43, 14) == 78378960360,
        binomial(43, 15) == 151532656696,
        binomial(43, 16) == 265182149218,
        binomial(43, 17) == 421171648758,
        binomial(43, 18) == 608359048206,
        binomial(43, 19) == 800472431850,
        binomial(43, 20) == 960566918220,
        binomial(43, 21) == 1052049481860,
        binomial(43, 22) == 1052049481860,
        binomial(43, 23) == 960566918220,
        binomial(43, 24) == 800472431850,
        binomial(43, 25) == 608359048206,
        binomial(43, 26) == 421171648758,
        binomial(43, 27) == 265182149218,
        binomial(43, 28) == 151532656696,
        binomial(43, 29) == 78378960360,
        binomial(43, 30) == 36576848168,
        binomial(43, 31) == 15338678264,
        binomial(43, 32) == 5752004349,
        binomial(43, 33) == 1917334783,
        binomial(43, 34) == 563921995,
        binomial(43, 35) == 145008513,
        binomial(43, 36) == 32224114,
        binomial(43, 37) == 6096454,
        binomial(43, 38) == 962598,
        binomial(43, 39) == 123410,
        binomial(43, 40) == 12341,
        binomial(43, 41) == 903,
        binomial(43, 42) == 43,
        binomial(43, 43) == 1,
        binomial(43, 44) == 0,
{
    lemma_binomial_row_42();
    lemma_binomial_zero(43, 44);
}

/// Row 44 of Pascal's triangle.
proof fn lemma_binomial_row_44()
    ensures
        binomial(44, 0) == 1,
        binomial(44, 1) == 44,
        binomial(44, 2) == 946,
        binomial(44, 3) == 13244,
        binomial(44, 4) == 135751,
        binomial(44, 5) == 1086008,
        binomial(44, 6) == 7059052,
        binomial(44, 7) == 38320568,
        binomial(44, 8) == 177232627,
        binomial(44, 9) == 708930508,
        binomial(44, 10) == 2481256778,
        binomial(44, 11) == 7669339132,
        binomial(44, 12) == 21090682613,
        binomial(44, 13) == 51915526432,
        binomial(44, 14) == 114955808528,
        binomial(44, 15) == 229911617056,
        binomial(44, 16) == 416714805914,
        binomial(44, 17) == 686353797976,
        binomial(44, 18) == 1029530696964,
        binomial(44, 19) == 1408831480056,
        binomial(44, 20) == 1761039350070,
        binomial(44, 21) == 2012616400080,
        binomial(44, 22) == 2104098963720,
        binomial(44, 23) == 2012616400080,
        binomial(44, 24) == 1761039350070,
        binomial(44, 25) == 1408831480056,
        binomial(44, 26) == 1029530696964,
        binomial(44, 27) == 686353797976,
        binomial(44, 28) == 416714805914,
        binomial(44, 29) == 229911617056,
        binomial(44, 30) == 114955808528,
        binomial(44, 31) == 51915526432,
        binomial(44, 32) == 21090682613,
        binomial(44, 33) == 7669339132,
        binomial(44, 34) == 2481256778,
        binomial(44, 35) == 708930508,
        binomial(44, 36) == 177232627,
        binomial(44, 37) == 38320568,
        binomial(44, 38) == 7059052,
        binomial(44, 39) == 1086008,
        binomial(44, 40) == 135751,
        binomial(44, 41) == 13244,
        binomial(44, 42) == 946,
        binomial(44, 43) == 44,
        binomial(44, 44) == 1,
        binomial(44, 45) == 0,
{
    lemma_binomial_row_43();
    lemma_binomial_zero(44, 45);
}

/// Row 45 of Pascal's triangle.
proof fn lemma_binomial_row_45()
    ensures
        binomial(45, 0) == 1,
        binomial(45, 1) == 45,
        binomial(45, 2) == 990,
        binomial(45, 3) == 14190,
        binomial(45, 4) == 148995,
        binomial(45, 5) == 1221759,
        binomial(45, 6) == 8145060,
        binomial(45, 7) == 45379620,
        binomial(45, 8) == 215553195,
        binomial(45, 9) == 886163135,
        binomial(45, 10) == 3190187286,
        binomial(45, 11) == 10150595910,
        binomial(45, 12) == 28760021745,
        binomial(45, 13) == 73006209045,
        binomial(45, 14) == 166871334960,
        binomial(45, 15) == 344867425584,
        binomial(45, 16) == 646626422970,
        binomial(45, 17) == 1103068603890,
        binomial(45, 18) == 1715884494940,
        binomial(45, 19) == 2438362177020,
        binomial(45, 20) == 3169870830126,
        binomial(45, 21) == 3773655750150,
        binomial(45, 22) == 4116715363800,
        binomial(45, 23) == 4116715363800,
        binomial(45, 24) == 3773655750150,
        binomial(45, 25) == 3169870830126,
        binomial(45, 26) == 2438362177020,
        binomial(45, 27) == 1715884494940,
        binomial(45, 28) == 1103068603890,
        binomial(45, 29) == 646626422970,
        binomial(45, 30) == 344867425584,
        binomial(45, 31) == 166871334960,
        binomial(45, 32) == 73006209045,
        binomial(45, 33) == 28760021745,
        binomial(45, 34) == 10150595910,
        binomial(45, 35) == 3190187286,
        binomial(45, 36) == 886163135,
        binomial(45, 37) == 215553195,
        binomial(45, 38) == 45379620,
        binomial(45, 39) == 8145060,
        binomial(45, 40) == 1221759,
        binomial(45, 41) == 148995,
        binomial(45, 42) == 14190,
        binomial(45, 43) == 990,
        binomial(45, 44) == 45,
        binomial(45, 45) == 1,
        binomial(45, 46) == 0,
{
    lemma_binomial_row_44();
    lemma_binomial_zero(45, 46);
}

/// Row 46 of Pascal's triangle.
proof fn lemma_binomial_row_46()
    ensures
        binomial(46, 0) == 1,
        binomial(46, 1) == 46,
        binomial(46, 2) == 1035,
        binomial(46, 3) == 15180,
        binomial(46, 4) == 163185,
        binomial(46, 5) == 1370754,
        binomial(46, 6) == 9366819,
        binomial(46, 7) == 53524680,
        binomial(46, 8) == 260932815,
        binomial(46, 9) == 1101716330,
        binomial(46, 10) == 4076350421,
        binomial(46, 11) == 13340783196,
        binomial(46, 12) == 38910617655,
        binomial(46, 13) == 101766230790,
        binomial(46, 14) == 239877544005,
        binomial(46, 15) == 511738760544,
        binomial(46, 16) == 991493848554,
        binomial(46, 17) == 1749695026860,
        binomial(46, 18) == 2818953098830,
        binomial(46, 19) == 4154246671960,
        binomial(46, 20) == 5608233007146,
        binomial(46, 21) == 6943526580276,
        binomial(46, 22) == 7890371113950,
        binomial(46, 23) == 8233430727600,
        binomial(46, 24) == 7890371113950,
        binomial(46, 25) == 6943526580276,
        binomial(46, 26) == 5608233007146,
        binomial(46, 27) == 4154246671960,
        binomial(46, 28) == 2818953098830,
        binomial(46, 29) == 1749695026860,
        binomial(46, 30) == 991493848554,
        binomial(46, 31) == 511738760544,
        binomial(46, 32) == 239877544005,
        binomial(46, 33) == 101766230790,
        binomial(46, 34) == 38910617655,
        binomial(46, 35) == 13340783196,
        binomial(46, 36) == 4076350421,
        binomial(46, 37) == 1101716330,
        binomial(46, 38) == 260932815,
        binomial(46, 39) == 53524680,
        binomial(46, 40) == 9366819,
        binomial(46, 41) == 1370754,
        binomial(46, 42) == 163185,
        binomial(46, 43) == 15180,
        binomial(46, 44) == 1035,
        binomial(46, 45) == 46,
        binomial(46, 46) == 1,
        binomial(46, 47) == 0,
{
    lemma_binomial_row_45();
    lemma_binomial_zero(46, 47);
}

/// Row 47 of Pascal's triangle.
proof fn lemma_binomial_row_47()
    ensures
        binomial(47, 0) == 1,
        binomial(47, 1) == 47,
        binomial(47, 2) == 1081,
        binomial(47, 3) == 16215,
        binomial(47, 4) == 178365,
        binomial(47, 5) == 1533939,
        binomial(47, 6) == 10737573,
        binomial(47, 7) == 62891499,
        binomial(47, 8) == 314457495,
        binomial(47, 9) == 1362649145,
        binomial(47, 10) == 5178066751,
        binomial(47, 11) == 17417133617,
        binomial(47, 12) == 52251400851,
        binomial(47, 13) == 140676848445,
        binomial(47, 14) == 341643774795,
        binomial(47, 15) == 751616304549,
        binomial(47, 16) == 1503232609098,
        binomial(47, 17) == 2741188875414,
        binomial(47, 18) == 4568648125690,
        binomial(47, 19) == 6973199770790,
        binomial(47, 20) == 9762479679106,
        binomial(47, 21) == 12551759587422,
        binomial(47, 22) == 14833897694226,
        binomial(47, 23) == 16123801841550,
        binomial(47, 24) == 16123801841550,
        binomial(47, 25) == 14833897694226,
        binomial(47, 26) == 12551759587422,
        binomial(47, 27) == 9762479679106,
        binomial(47, 28) == 6973199770790,
        binomial(47, 29) == 4568648125690,
        binomial(47, 30) == 2741188875414,
        binomial(47, 31) == 1503232609098,
        binomial(47, 32) == 751616304549,
        binomial(47, 33) == 341643774795,
        binomial(47, 34) == 140676848445,
        binomial(47, 35) == 52251400851,
        binomial(47, 36) == 17417133617,
        binomial(47, 37) == 5178066751,
        binomial(47, 38) == 1362649145,
        binomial(47, 39) == 314457495,
        binomial(47, 40) == 62891499,
        binomial(47, 41) == 10737573,
        binomial(47, 42) == 1533939,
        binomial(47, 43) == 178365,
        binomial(47, 44) == 16215,
        binomial(47, 45) == 1081,
        binomial(47, 46) == 47,
        binomial(47, 47) == 1,
        binomial(47, 48) == 0,
{
    lemma_binomial_row_46();
    lemma_binomial_zero(47, 48);
}

/// Row 48 of Pascal's triangle.
proof fn lemma_binomial_row_48()
    ensures
        binomial(48, 0) == 1,
        binomial(48, 1) == 48,
        binomial(48, 2) == 1128,
        binomial(48, 3) == 17296,
        binomial(48, 4) == 194580,
        binomial(48, 5) == 1712304,
        binomial(48, 6) == 12271512,
        binomial(48, 7) == 73629072,
        binomial(48, 8) == 377348994,
        binomial(48, 9) == 1677106640,
        binomial(48, 10) == 6540715896,
        binomial(48, 11) == 22595200368,
        binomial(48, 12) == 69668534468,
        binomial(48, 13) == 192928249296,
        binomial(48, 14) == 482320623240,
        binomial(48, 15) == 1093260079344,
        binomial(48, 16) == 2254848913647,
        binomial(48, 17) == 4244421484512,
        binomial(48, 18) == 7309837001104,
        binomial(48, 19) == 11541847896480,
        binomial(48, 20) == 16735679449896,
        binomial(48, 21) == 22314239266528,
        binomial(48, 22) == 27385657281648,
        binomial(48, 23) == 30957699535776,
        binomial(48, 24) == 32247603683100,
        binomial(48, 25) == 30957699535776,
        binomial(48, 26) == 27385657281648,
        binomial(48, 27) == 22314239266528,
        binomial(48, 28) == 16735679449896,
        binomial(48, 29) == 11541847896480,
        binomial(48, 30) == 7309837001104,
        binomial(48, 31) == 4244421484512,
        binomial(48, 32) == 2254848913647,
        binomial(48, 33) == 1093260079344,
        binomial(48, 34) == 482320623240,
        binomial(48, 35) == 192928249296,
        binomial(48, 36) == 69668534468,
        binomial(48, 37) == 22595200368,
        binomial(48, 38) == 6540715896,
        binomial(48, 39) == 1677106640,
        binomial(48, 40) == 377348994,
        binomial(48, 41) == 73629072,
        binomial(48, 42) == 12271512,
        binomial(48, 43) == 1712304,
        binomial(48, 44) == 194580,
        binomial(48, 45) == 17296,
        binomial(48, 46) == 1128,
        binomial(48, 47) == 48,
        binomial(48, 48) == 1,
        binomial(48, 49) == 0,
{
    lemma_binomial_row_47();
    lemma_binomial_zero(48, 49);
}

/// Row 49 of Pascal's triangle.
proof fn lemma_binomial_row_49()
    ensures
        binomial(49, 0) == 1,
        binomial(49, 1) == 49,
        binomial(49, 2) == 1176,
        binomial(49, 3) == 18424,
        binomial(49, 4) == 211876,
        binomial(49, 5) == 1906884,
        binomial(49, 6) == 13983816,
        binomial(49, 7) == 85900584,
        binomial(49, 8) == 450978066,
        binomial(49, 9) == 2054455634,
        binomial(49, 10) == 8217822536,
        binomial(49, 11) == 29135916264,
        binomial(49, 12) == 92263734836,
        binomial(49, 13) == 262596783764,
        binomial(49, 14) == 675248872536,
        binomial(49, 15) == 1575580702584,
        binomial(49, 16) == 3348108992991,
        binomial(49, 17) == 6499270398159,
        binomial(49, 18) == 11554258485616,
        binomial(49, 19) == 18851684897584,
        binomial(49, 20) == 28277527346376,
        binomial(49, 21) == 39049918716424,
        binomial(49, 22) == 49699896548176,
        binomial(49, 23) == 58343356817424,
        binomial(49, 24) == 63205303218876,
        binomial(49, 25) == 63205303218876,
        binomial(49, 26) == 58343356817424,
        binomial(49, 27) == 49699896548176,
        binomial(49, 28) == 39049918716424,
        binomial(49, 29) == 28277527346376,
        binomial(49, 30) == 18851684897584,
        binomial(49, 31) == 11554258485616,
        binomial(49, 32) == 6499270398159,
        binomial(49, 33) == 3348108992991,
        binomial(49, 34) == 1575580702584,
        binomial(49, 35) == 675248872536,
        binomial(49, 36) == 262596783764,
        binomial(49, 37) == 92263734836,
        binomial(49, 38) == 29135916264,
        binomial(49, 39) == 8217822536,
        binomial(49, 40) == 2054455634,
        binomial(49, 41) == 450978066,
        binomial(49, 42) == 85900584,
        binomial(49, 43) == 13983816,
        binomial(49, 44) == 1906884,
        binomial(49, 45) == 211876,
        binomial(49, 46) == 18424,
        binomial(49, 47) == 1176,
        binomial(49, 48) == 49,
        binomial(49, 49) == 1,
        binomial(49, 50) == 0,
{
    lemma_binomial_row_48();
    lemma_binomial_zero(49, 50);
}

/// Row 50 of Pascal's triangle.
proof fn lemma_binomial_row_50()
    ensures
        binomial(50, 0) == 1,
        binomial(50, 1) == 50,
        binomial(50, 2) == 1225,
        binomial(50, 3) == 19600,
        binomial(50, 4) == 230300,
        binomial(50, 5) == 2118760,
        binomial(50, 6) == 15890700,
        binomial(50, 7) == 99884400,
        binomial(50, 8) == 536878650,
        binomial(50, 9) == 2505433700,
        binomial(50, 10) == 10272278170,
        binomial(50, 11) == 37353738800,
        binomial(50, 12) == 121399651100,
        binomial(50, 13) == 354860518600,
        binomial(50, 14) == 937845656300,
        binomial(50, 15) == 2250829575120,
        binomial(50, 16) == 4923689695575,
        binomial(50, 17) == 9847379391150,
        binomial(50, 18) == 18053528883775,
        binomial(50, 19) == 30405943383200,
        binomial(50, 20) == 47129212243960,
        binomial(50, 21) == 67327446062800,
        binomial(50, 22) == 88749815264600,
        binomial(50, 23) == 108043253365600,
        binomial(50, 24) == 121548660036300,
        binomial(50, 25) == 126410606437752,
        binomial(50, 26) == 121548660036300,
        binomial(50, 27) == 108043253365600,
        binomial(50, 28) == 88749815264600,
        binomial(50, 29) == 67327446062800,
        binomial(50, 30) == 47129212243960,
        binomial(50, 31) == 30405943383200,
        binomial(50, 32) == 18053528883775,
        binomial(50, 33) == 9847379391150,
        binomial(50, 34) == 4923689695575,
        binomial(50, 35) == 2250829575120,
        binomial(50, 36) == 937845656300,
        binomial(50, 37) == 354860518600,
        binomial(50, 38) == 121399651100,
        binomial(50, 39) == 37353738800,
        binomial(50, 40) == 10272278170,
        binomial(50, 41) == 2505433700,
        binomial(50, 42) == 536878650,
        binomial(50, 43) == 99884400,
        binomial(50, 44) == 15890700,
        binomial(50, 45) == 2118760,
        binomial(50, 46) == 230300,
        binomial(50, 47) == 19600,
        binomial(50, 48) == 1225,
        binomial(50, 49) == 50,
        binomial(50, 50) == 1,
        binomial(50, 51) == 0,
{
    lemma_binomial_row_49();
    lemma_binomial_zero(50, 51);
}

/// Row 51 of Pascal's triangle.
proof fn lemma_binomial_row_51()
    ensures
        binomial(51, 0) == 1,
        binomial(51, 1) == 51,
        binomial(51, 2) == 1275,
        binomial(51, 3) == 20825,
        binomial(51, 4) == 249900,
        binomial(51, 5) == 2349060,
        binomial(51, 6) == 18009460,
        binomial(51, 7) == 115775100,
        binomial(51, 8) == 636763050,
        binomial(51, 9) == 3042312350,
        binomial(51, 10) == 12777711870,
        binomial(51, 11) == 47626016970,
        binomial(51, 12) == 158753389900,
        binomial(51, 13) == 476260169700,
        binomial(51, 14) == 1292706174900,
        binomial(51, 15) == 3188675231420,
        binomial(51, 16) == 7174519270695,
        binomial(51, 17) == 14771069086725,
        binomial(51, 18) == 27900908274925,
        binomial(51, 19) == 48459472266975,
        binomial(51, 20) == 77535155627160,
        binomial(51, 21) == 114456658306760,
        binomial(51, 22) == 156077261327400,
        binomial(51, 23) == 196793068630200,
        binomial(51, 24) == 229591913401900,
        binomial(51, 25) == 247959266474052,
        binomial(51, 26) == 247959266474052,
        binomial(51, 27) == 229591913401900,
        binomial(51, 28) == 196793068630200,
        binomial(51, 29) == 156077261327400,
        binomial(51, 30) == 114456658306760,
        binomial(51, 31) == 77535155627160,
        binomial(51, 32) == 48459472266975,
        binomial(51, 33) == 27900908274925,
        binomial(51, 34) == 14771069086725,
        binomial(51, 35) == 7174519270695,
        binomial(51, 36) == 3188675231420,
        binomial(51, 37) == 1292706174900,
        binomial(51, 38) == 476260169700,
        binomial(51, 39) == 158753389900,
        binomial(51, 40) == 47626016970,
        binomial(51, 41) == 12777711870,
        binomial(51, 42) == 3042312350,
        binomial(51, 43) == 636763050,
        binomial(51, 44) == 115775100,
        binomial(51, 45) == 18009460,
        binomial(51, 46) == 2349060,
        binomial(51, 47) == 249900,
        binomial(51, 48) == 20825,
        binomial(51, 49) == 1275,
        binomial(51, 50) == 51,
        binomial(51, 51) == 1,
        binomial(51, 52) == 0,
{
    lemma_binomial_row_50();
    lemma_binomial_zero(51, 52);
}

/// Row 52 of Pascal's triangle.
proof fn lemma_binomial_row_52()
    ensures
        binomial(52, 0) == 1,
        binomial(52, 1) == 52,
        binomial(52, 2) == 1326,
        binomial(52, 3) == 22100,
        binomial(52, 4) == 270725,
        binomial(52, 5) == 2598960,
        binomial(52, 6) == 20358520,
        binomial(52, 7) == 133784560,
        binomial(52, 8) == 752538150,
        binomial(52, 9) == 3679075400,
        binomial(52, 10) == 15820024220,
        binomial(52, 11) == 60403728840,
        binomial(52, 12) == 206379406870,
        binomial(52, 13) == 635013559600,
        binomial(52, 14) == 1768966344600,
        binomial(52, 15) == 4481381406320,
        binomial(52, 16) == 10363194502115,
        binomial(52, 17) == 21945588357420,
        binomial(52, 18) == 42671977361650,
        binomial(52, 19) == 76360380541900,
        binomial(52, 20) == 125994627894135,
        binomial(52, 21) == 191991813933920,
        binomial(52, 22) == 270533919634160,
        binomial(52, 23) == 352870329957600,
        binomial(52, 24) == 426384982032100,
        binomial(52, 25) == 477551179875952,
        binomial(52, 26) == 495918532948104,
        binomial(52, 27) == 477551179875952,
        binomial(52, 28) == 426384982032100,
        binomial(52, 29) == 352870329957600,
        binomial(52, 30) == 270533919634160,
        binomial(52, 31) == 191991813933920,
        binomial(52, 32) == 125994627894135,
        binomial(52, 33) == 76360380541900,
        binomial(52, 34) == 42671977361650,
        binomial(52, 35) == 21945588357420,
        binomial(52, 36) == 10363194502115,
        binomial(52, 37) == 4481381406320,
        binomial(52, 38) == 1768966344600,
        binomial(52, 39) == 635013559600,
        binomial(52, 40) == 206379406870,
        binomial(52, 41) == 60403728840,
        binomial(52, 42) == 15820024220,
        binomial(52, 43) == 3679075400,
        binomial(52, 44) == 752538150,
        binomial(52, 45) == 133784560,
        binomial(52, 46) == 20358520,
        binomial(52, 47) == 2598960,
        binomial(52, 48) == 270725,
        binomial(52, 49) == 22100,
        binomial(52, 50) == 1326,
        binomial(52, 51) == 52,
        binomial(52, 52) == 1,
        binomial(52, 53) == 0,
{
    lemma_binomial_row_51();
    lemma_binomial_zero(52, 53);
}

/// Row 53 of Pascal's triangle.
proof fn lemma_binomial_row_53()
    ensures
        binomial(53, 0) == 1,
        binomial(53, 1) == 53,
        binomial(53, 2) == 1378,
        binomial(53, 3) == 23426,
        binomial(53, 4) == 292825,
        binomial(53, 5) == 2869685,
        binomial(53, 6) == 22957480,
        binomial(53, 7) == 154143080,
        binomial(53, 8) == 886322710,
        binomial(53, 9) == 4431613550,
        binomial(53, 10) == 19499099620,
        binomial(53, 11) == 76223753060,
        binomial(53, 12) == 266783135710,
        binomial(53, 13) == 841392966470,
        binomial(53, 14) == 2403979904200,
        binomial(53, 15) == 6250347750920,
        binomial(53, 16) == 14844575908435,
        binomial(53, 17) == 32308782859535,
        binomial(53, 18) == 64617565719070,
        binomial(53, 19) == 119032357903550,
        binomial(53, 20) == 202355008436035,
        binomial(53, 21) == 317986441828055,
        binomial(53, 22) == 462525733568080,
        binomial(53, 23) == 623404249591760,
        binomial(53, 24) == 779255311989700,
        binomial(53, 25) == 903936161908052,
        binomial(53, 26) == 973469712824056,
        binomial(53, 27) == 973469712824056,
        binomial(53, 28) == 903936161908052,
        binomial(53, 29) == 779255311989700,
        binomial(53, 30) == 623404249591760,
        binomial(53, 31) == 462525733568080,
        binomial(53, 32) == 317986441828055,
        binomial(53, 33) == 202355008436035,
        binomial(53, 34) == 119032357903550,
        binomial(53, 35) == 64617565719070,
        binomial(53, 36) == 32308782859535,
        binomial(53, 37) == 14844575908435,
        binomial(53, 38) == 6250347750920,
        binomial(53, 39) == 2403979904200,
        binomial(53, 40) == 841392966470,
        binomial(53, 41) == 266783135710,
        binomial(53, 42) == 76223753060,
        binomial(53, 43) == 19499099620,
        binomial(53, 44) == 4431613550,
        binomial(53, 45) == 886322710,
        binomial(53, 46) == 154143080,
        binomial(53, 47) == 22957480,
        binomial(53, 48) == 2869685,
        binomial(53, 49) == 292825,
        binomial(53, 50) == 23426,
        binomial(53, 51) == 1378,
        binomial(53, 52) == 53,
        binomial(53, 53) == 1,
        binomial(53, 54) == 0,
{
    lemma_binomial_row_52();
    lemma_binomial_zero(53, 54);
}

/// Row 54 of Pascal's triangle.
proof fn lemma_binomial_row_54()
    ensures
        binomial(54, 0) == 1,
        binomial(54, 1) == 54,
        binomial(54, 2) == 1431,
        binomial(54, 3) == 24804,
        binomial(54, 4) == 316251,
        binomial(54, 5) == 3162510,
        binomial(54, 6) == 25827165,
        binomial(54, 7) == 177100560,
        binomial(54, 8) == 1040465790,
        binomial(54, 9) == 5317936260,
        binomial(54, 10) == 23930713170,
        binomial(54, 11) == 95722852680,
        binomial(54, 12) == 343006888770,
        binomial(54, 13) == 1108176102180,
        binomial(54, 14) == 3245372870670,
        binomial(54, 15) == 8654327655120,
        binomial(54, 16) == 21094923659355,
        binomial(54, 17) == 47153358767970,
        binomial(54, 18) == 96926348578605,
        binomial(54, 19) == 183649923622620,
        binomial(54, 20) == 321387366339585,
        binomial(54, 21) == 520341450264090,
        binomial(54, 22) == 780512175396135,
        binomial(54, 23) == 1085929983159840,
        binomial(54, 24) == 1402659561581460,
        binomial(54, 25) == 1683191473897752,
        binomial(54, 26) == 1877405874732108,
        binomial(54, 27) == 1946939425648112,
        binomial(54, 28) == 1877405874732108,
        binomial(54, 29) == 1683191473897752,
        binomial(54, 30) == 1402659561581460,
        binomial(54, 31) == 1085929983159840,
        binomial(54, 32) == 780512175396135,
        binomial(54, 33) == 520341450264090,
        binomial(54, 34) == 321387366339585,
        binomial(54, 35) == 183649923622620,
        binomial(54, 36) == 96926348578605,
        binomial(54, 37) == 47153358767970,
        binomial(54, 38) == 21094923659355,
        binomial(54, 39) == 8654327655120,
        binomial(54, 40) == 3245372870670,
        binomial(54, 41) == 1108176102180,
        binomial(54, 42) == 343006888770,
        binomial(54, 43) == 95722852680,
        binomial(54, 44) == 23930713170,
        binomial(54, 45) == 5317936260,
        binomial(54, 46) == 1040465790,
        binomial(54, 47) == 177100560,
        binomial(54, 48) == 25827165,
        binomial(54, 49) == 3162510,
        binomial(54, 50) == 316251,
        binomial(54, 51) == 24804,
        binomial(54, 52) == 1431,
        binomial(54, 53) == 54,
        binomial(54, 54) == 1,
        binomial(54, 55) == 0,
{
    lemma_binomial_row_53();
    lemma_binomial_zero(54, 55);
}

/// Row 55 of Pascal's triangle.
proof fn lemma_binomial_row_55()
    ensures
        binomial(55, 0) == 1,
        binomial(55, 1) == 55,
        binomial(55, 2) == 1485,
        binomial(55, 3) == 26235,
        binomial(55, 4) == 341055,
        binomial(55, 5) == 3478761,
        binomial(55, 6) == 28989675,
        binomial(55, 7) == 202927725,
        binomial(55, 8) == 1217566350,
        binomial(55, 9) == 6358402050,
        binomial(55, 10) == 29248649430,
        binomial(55, 11) == 119653565850,
        binomial(55, 12) == 438729741450,
        binomial(55, 13) == 1451182990950,
        binomial(55, 14) == 4353548972850,
        binomial(55, 15) == 11899700525790,
        binomial(55, 16) == 29749251314475,
        binomial(55, 17) == 68248282427325,
        binomial(55, 18) == 144079707346575,
        binomial(55, 19) == 280576272201225,
        binomial(55, 20) == 505037289962205,
        binomial(55, 21) == 841728816603675,
        binomial(55, 22) == 1300853625660225,
        binomial(55, 23) == 1866442158555975,
        binomial(55, 24) == 2488589544741300,
        binomial(55, 25) == 3085851035479212,
        binomial(55, 26) == 3560597348629860,
        binomial(55, 27) == 3824345300380220,
        binomial(55, 28) == 3824345300380220,
        binomial(55, 29) == 3560597348629860,
        binomial(55, 30) == 3085851035479212,
        binomial(55, 31) == 2488589544741300,
        binomial(55, 32) == 1866442158555975,
        binomial(55, 33) == 1300853625660225,
        binomial(55, 34) == 841728816603675,
        binomial(55, 35) == 505037289962205,
        binomial(55, 36) == 280576272201225,
        binomial(55, 37) == 144079707346575,
        binomial(55, 38) == 68248282427325,
        binomial(55, 39) == 29749251314475,
        binomial(55, 40) == 11899700525790,
        binomial(55, 41) == 4353548972850,
        binomial(55, 42) == 1451182990950,
        binomial(55, 43) == 438729741450,
        binomial(55, 44) == 119653565850,
        binomial(55, 45) == 29248649430,
        binomial(55, 46) == 6358402050,
        binomial(55, 47) == 1217566350,
        binomial(55, 48) == 202927725,
        binomial(55, 49) == 28989675,
        binomial(55, 50) == 3478761,
        binomial(55, 51) == 341055,
        binomial(55, 52) == 26235,
        binomial(55, 53) == 1485,
        binomial(55, 54) == 55,
        binomial(55, 55) == 1,
        binomial(55, 56) == 0,
{
    lemma_binomial_row_54();
    lemma_binomial_zero(55, 56);
}

/// Row 56 of Pascal's triangle.
proof fn lemma_binomial_row_56()
    ensures
        binomial(56, 0) == 1,
        binomial(56, 1) == 56,
        binomial(56, 2) == 1540,
        binomial(56, 3) == 27720,
        binomial(56, 4) == 367290,
        binomial(56, 5) == 3819816,
        binomial(56, 6) == 32468436,
        binomial(56, 7) == 231917400,
        binomial(56, 8) == 1420494075,
        binomial(56, 9) == 7575968400,
        binomial(56, 10) == 35607051480,
        binomial(56, 11) == 148902215280,
        binomial(56, 12) == 558383307300,
        binomial(56, 13) == 1889912732400,
        binomial(56, 14) == 5804731963800,
        binomial(56, 15) == 16253249498640,
        binomial(56, 16) == 41648951840265,
        binomial(56, 17) == 97997533741800,
        binomial(56, 18) == 212327989773900,
        binomial(56, 19) == 424655979547800,
        binomial(56, 20) == 785613562163430,
        binomial(56, 21) == 1346766106565880,
        binomial(56, 22) == 2142582442263900,
        binomial(56, 23) == 3167295784216200,
        binomial(56, 24) == 4355031703297275,
        binomial(56, 25) == 5574440580220512,
        binomial(56, 26) == 6646448384109072,
        binomial(56, 27) == 7384942649010080,
        binomial(56, 28) == 7648690600760440,
        binomial(56, 29) == 7384942649010080,
        binomial(56, 30) == 6646448384109072,
        binomial(56, 31) == 5574440580220512,
        binomial(56, 32) == 4355031703297275,
        binomial(56, 33) == 3167295784216200,
        binomial(56, 34) == 2142582442263900,
        binomial(56, 35) == 1346766106565880,
        binomial(56, 36) == 785613562163430,
        binomial(56, 37) == 424655979547800,
        binomial(56, 38) == 212327989773900,
        binomial(56, 39) == 97997533741800,
        binomial(56, 40) == 41648951840265,
        binomial(56, 41) == 16253249498640,
        binomial(56, 42) == 5804731963800,
        binomial(56, 43) == 1889912732400,
        binomial(56, 44) == 558383307300,
        binomial(56, 45) == 148902215280,
        binomial(56, 46) == 35607051480,
        binomial(56, 47) == 7575968400,
        binomial(56, 48) == 1420494075,
        binomial(56, 49) == 231917400,
        binomial(56, 50) == 32468436,
        binomial(56, 51) == 3819816,
        binomial(56, 52) == 367290,
        binomial(56, 53) == 27720,
        binomial(56, 54) == 1540,
        binomial(56, 55) == 56,
        binomial(56, 56) == 1,
        binomial(56, 57) == 0,
{
    lemma_binomial_row_55();
    lemma_binomial_zero(56, 57);
}

/// Row 57 of Pascal's triangle.
proof fn lemma_binomial_row_57()
    ensures
        binomial(57, 0) == 1,
        binomial(57, 1) == 57,
        binomial(57, 2) == 1596,
        binomial(57, 3) == 29260,
        binomial(57, 4) == 395010,
        binomial(57, 5) == 4187106,
        binomial(57, 6) == 36288252,
        binomial(57, 7) == 264385836,
        binomial(57, 8) == 1652411475,
        binomial(57, 9) == 8996462475,
        binomial(57, 10) == 43183019880,
        binomial(57, 11) == 184509266760,
        binomial(57, 12) == 707285522580,
        binomial(57, 13) == 2448296039700,
        binomial(57, 14) == 7694644696200,
        binomial(57, 15) == 22057981462440,
        binomial(57, 16) == 57902201338905,
        binomial(57, 17) == 139646485582065,
        binomial(57, 18) == 310325523515700,
        binomial(57, 19) == 636983969321700,
        binomial(57, 20) == 1210269541711230,
        binomial(57, 21) == 2132379668729310,
        binomial(57, 22) == 3489348548829780,
        binomial(57, 23) == 5309878226480100,
        binomial(57, 24) == 7522327487513475,
        binomial(57, 25) == 9929472283517787,
        binomial(57, 26) == 12220888964329584,
        binomial(57, 27) == 14031391033119152,
        binomial(57, 28) == 15033633249770520,
        binomial(57, 29) == 15033633249770520,
        binomial(57, 30) == 14031391033119152,
        binomial(57, 31) == 12220888964329584,
        binomial(57, 32) == 9929472283517787,
        binomial(57, 33) == 7522327487513475,
        binomial(57, 34) == 5309878226480100,
        binomial(57, 35) == 3489348548829780,
        binomial(57, 36) == 2132379668729310,
        binomial(57, 37) == 1210269541711230,
        binomial(57, 38) == 636983969321700,
        binomial(57, 39) == 310325523515700,
        binomial(57, 40) == 139646485582065,
        binomial(57, 41) == 57902201338905,
        binomial(57, 42) == 22057981462440,
        binomial(57, 43) == 7694644696200,
        binomial(57, 44) == 2448296039700,
        binomial(57, 45) == 707285522580,
        binomial(57, 46) == 184509266760,
        binomial(57, 47) == 43183019880,
        binomial(57, 48) == 8996462475,
        binomial(57, 49) == 1652411475,
        binomial(57, 50) == 264385836,
        binomial(57, 51) == 36288252,
        binomial(57, 52) == 4187106,
        binomial(57, 53) == 395010,
        binomial(57, 54) == 29260,
        binomial(57, 55) == 1596,
        binomial(57, 56) == 57,
        binomial(57, 57) == 1,
        binomial(57, 58) == 0,
{
    lemma_binomial_row_56();
    lemma_binomial_zero(57, 58);
}

/// Row 58 of Pascal's triangle.
proof fn lemma_binomial_row_58()
    ensures
        binomial(58, 0) == 1,
        binomial(58, 1) == 58,
        binomial(58, 2) == 1653,
        binomial(58, 3) == 30856,
        binomial(58, 4) == 424270,
        binomial(58, 5) == 4582116,
        binomial(58, 6) == 40475358,
        binomial(58, 7) == 300674088,
        binomial(58, 8) == 1916797311,
        binomial(58, 9) == 10648873950,
        binomial(58, 10) == 52179482355,
        binomial(58, 11) == 227692286640,
        binomial(58, 12) == 891794789340,
        binomial(58, 13) == 3155581562280,
        binomial(58, 14) == 10142940735900,
        binomial(58, 15) == 29752626158640,
        binomial(58, 16) == 79960182801345,
        binomial(58, 17) == 197548686920970,
        binomial(58, 18) == 449972009097765,
        binomial(58, 19) == 947309492837400,
        binomial(58, 20) == 1847253511032930,
        binomial(58, 21) == 3342649210440540,
        binomial(58, 22) == 5621728217559090,
        binomial(58, 23) == 8799226775309880,
        binomial(58, 24) == 12832205713993575,
        binomial(58, 25) == 17451799771031262,
        binomial(58, 26) == 22150361247847371,
        binomial(58, 27) == 26252279997448736,
        binomial(58, 28) == 29065024282889672,
        binomial(58, 29) == 30067266499541040,
        binomial(58, 30) == 29065024282889672,
        binomial(58, 31) == 26252279997448736,
        binomial(58, 32) == 22150361247847371,
        binomial(58, 33) == 17451799771031262,
        binomial(58, 34) == 12832205713993575,
        binomial(58, 35) == 8799226775309880,
        binomial(58, 36) == 5621728217559090,
        binomial(58, 37) == 3342649210440540,
        binomial(58, 38) == 1847253511032930,
        binomial(58, 39) == 947309492837400,
        binomial(58, 40) == 449972009097765,
        binomial(58, 41) == 197548686920970,
        binomial(58, 42) == 79960182801345,
        binomial(58, 43) == 29752626158640,
        binomial(58, 44) == 10142940735900,
        binomial(58, 45) == 3155581562280,
        binomial(58, 46) == 891794789340,
        binomial(58, 47) == 227692286640,
        binomial(58, 48) == 52179482355,
        binomial(58, 49) == 10648873950,
        binomial(58, 50) == 1916797311,
        binomial(58, 51) == 300674088,
        binomial(58, 52) == 40475358,
        binomial(58, 53) == 4582116,
        binomial(58, 54) == 424270,
        binomial(58, 55) == 30856,
        binomial(58, 56) == 1653,
        binomial(58, 57) == 58,
        binomial(58, 58) == 1,
        binomial(58, 59) == 0,
{
    lemma_binomial_row_57();
    lemma_binomial_zero(58, 59);
}

/// Row 59 of Pascal's triangle.
proof fn lemma_binomial_row_59()
    ensures
        binomial(59, 0) == 1,
        binomial(59, 1) == 59,
        binomial(59, 2) == 1711,
        binomial(59, 3) == 32509,
        binomial(59, 4) == 455126,
        binomial(59, 5) == 5006386,
        binomial(59, 6) == 45057474,
        binomial(59, 7) == 341149446,
        binomial(59, 8) == 2217471399,
        binomial(59, 9) == 12565671261,
        binomial(59, 10) == 62828356305,
        binomial(59, 11) == 279871768995,
        binomial(59, 12) == 1119487075980,
        binomial(59, 13) == 4047376351620,
        binomial(59, 14) == 13298522298180,
        binomial(59, 15) == 39895566894540,
        binomial(59, 16) == 109712808959985,
        binomial(59, 17) == 277508869722315,
        binomial(59, 18) == 647520696018735,
        binomial(59, 19) == 1397281501935165,
        binomial(59, 20) == 2794563003870330,
        binomial(59, 21) == 5189902721473470,
        binomial(59, 22) == 8964377427999630,
        binomial(59, 23) == 14420954992868970,
        binomial(59, 24) == 21631432489303455,
        binomial(59, 25) == 30284005485024837,
        binomial(59, 26) == 39602161018878633,
        binomial(59, 27) == 48402641245296107,
        binomial(59, 28) == 55317304280338408,
        binomial(59, 29) == 59132290782430712,
        binomial(59, 30) == 59132290782430712,
        binomial(59, 31) == 55317304280338408,
        binomial(59, 32) == 48402641245296107,
        binomial(59, 33) == 39602161018878633,
        binomial(59, 34) == 30284005485024837,
        binomial(59, 35) == 21631432489303455,
        binomial(59, 36) == 14420954992868970,
        binomial(59, 37) == 8964377427999630,
        binomial(59, 38) == 5189902721473470,
        binomial(59, 39) == 2794563003870330,
        binomial(59, 40) == 1397281501935165,
        binomial(59, 41) == 647520696018735,
        binomial(59, 42) == 277508869722315,
        binomial(59, 43) == 109712808959985,
        binomial(59, 44) == 39895566894540,
        binomial(59, 45) == 13298522298180,
        binomial(59, 46) == 4047376351620,
        binomial(59, 47) == 1119487075980,
        binomial(59, 48) == 279871768995,
        binomial(59, 49) == 62828356305,
        binomial(59, 50) == 12565671261,
        binomial(59, 51) == 2217471399,
        binomial(59, 52) == 341149446,
        binomial(59, 53) == 45057474,
        binomial(59, 54) == 5006386,
        binomial(59, 55) == 455126,
        binomial(59, 56) == 32509,
        binomial(59, 57) == 1711,
        binomial(59, 58) == 59,
        binomial(59, 59) == 1,
        binomial(59, 60) == 0,
{
    lemma_binomial_row_58();
    lemma_binomial_zero(59, 60);
}

/// Row 60 of Pascal's triangle.
proof fn lemma_binomial_row_60()
    ensures
        binomial(60, 0) == 1,
        binomial(60, 1) == 60,
        binomial(60, 2) == 1770,
        binomial(60, 3) == 34220,
        binomial(60, 4) == 487635,
        binomial(60, 5) == 5461512,
        binomial(60, 6) == 50063860,
        binomial(60, 7) == 386206920,
        binomial(60, 8) == 2558620845,
        binomial(60, 9) == 14783142660,
        binomial(60, 10) == 75394027566,
        binomial(60, 11) == 342700125300,
        binomial(60, 12) == 1399358844975,
        binomial(60, 13) == 5166863427600,
        binomial(60, 14) == 17345898649800,
        binomial(60, 15) == 53194089192720,
        binomial(60, 16) == 149608375854525,
        binomial(60, 17) == 387221678682300,
        binomial(60, 18) == 925029565741050,
        binomial(60, 19) == 2044802197953900,
        binomial(60, 20) == 4191844505805495,
        binomial(60, 21) == 7984465725343800,
        binomial(60, 22) == 14154280149473100,
        binomial(60, 23) == 23385332420868600,
        binomial(60, 24) == 36052387482172425,
        binomial(60, 25) == 51915437974328292,
        binomial(60, 26) == 69886166503903470,
        binomial(60, 27) == 88004802264174740,
        binomial(60, 28) == 103719945525634515,
        binomial(60, 29) == 114449595062769120,
        binomial(60, 30) == 118264581564861424,
        binomial(60, 31) == 114449595062769120,
        binomial(60, 32) == 103719945525634515,
        binomial(60, 33) == 88004802264174740,
        binomial(60, 34) == 69886166503903470,
        binomial(60, 35) == 51915437974328292,
        binomial(60, 36) == 36052387482172425,
        binomial(60, 37) == 23385332420868600,
        binomial(60, 38) == 14154280149473100,
        binomial(60, 39) == 7984465725343800,
        binomial(60, 40) == 4191844505805495,
        binomial(60, 41) == 2044802197953900,
        binomial(60, 42) == 925029565741050,
        binomial(60, 43) == 387221678682300,
        binomial(60, 44) == 149608375854525,
        binomial(60, 45) == 53194089192720,
        binomial(60, 46) == 17345898649800,
        binomial(60, 47) == 5166863427600,
        binomial(60, 48) == 1399358844975,
        binomial(60, 49) == 342700125300,
        binomial(60, 50) == 75394027566,
        binomial(60, 51) == 14783142660,
        binomial(60, 52) == 2558620845,
        binomial(60, 53) == 386206920,
        binomial(60, 54) == 50063860,
        binomial(60, 55) == 5461512,
        binomial(60, 56) == 487635,
        binomial(60, 57) == 34220,
        binomial(60, 58) == 1770,
        binomial(60, 59) == 60,
        binomial(60, 60) == 1,
        binomial(60, 61) == 0,
{
    lemma_binomial_row_59();
    lemma_binomial_zero(60, 61);
}

/// Row 61 of Pascal's triangle.
proof fn lemma_binomial_row_61()
    ensures
        binomial(61, 0) == 1,
        binomial(61, 1) == 61,
        binomial(61, 2) == 1830,
        binomial(61, 3) == 35990,
        binomial(61, 4) == 521855,
        binomial(61, 5) == 5949147,
        binomial(61, 6) == 55525372,
        binomial(61, 7) == 436270780,
        binomial(61, 8) == 2944827765,
        binomial(61, 9) == 17341763505,
        binomial(61, 10) == 90177170226,
        binomial(61, 11) == 418094152866,
        binomial(61, 12) == 1742058970275,
        binomial(61, 13) == 6566222272575,
        binomial(61, 14) == 22512762077400,
        binomial(61, 15) == 70539987842520,
        binomial(61, 16) == 202802465047245,
        binomial(61, 17) == 536830054536825,
        binomial(61, 18) == 1312251244423350,
        binomial(61, 19) == 2969831763694950,
        binomial(61, 20) == 6236646703759395,
        binomial(61, 21) == 12176310231149295,
        binomial(61, 22) == 22138745874816900,
        binomial(61, 23) == 37539612570341700,
        binomial(61, 24) == 59437719903041025,
        binomial(61, 25) == 87967825456500717,
        binomial(61, 26) == 121801604478231762,
        binomial(61, 27) == 157890968768078210,
        binomial(61, 28) == 191724747789809255,
        binomial(61, 29) == 218169540588403635,
        binomial(61, 30) == 232714176627630544,
        binomial(61, 31) == 232714176627630544,
        binomial(61, 32) == 218169540588403635,
        binomial(61, 33) == 191724747789809255,
        binomial(61, 34) == 157890968768078210,
        binomial(61, 35) == 121801604478231762,
        binomial(61, 36) == 87967825456500717,
        binomial(61, 37) == 59437719903041025,
        binomial(61, 38) == 37539612570341700,
        binomial(61, 39) == 22138745874816900,
        binomial(61, 40) == 12176310231149295,
        binomial(61, 41) == 6236646703759395,
        binomial(61, 42) == 2969831763694950,
        binomial(61, 43) == 1312251244423350,
        binomial(61, 44) == 536830054536825,
        binomial(61, 45) == 202802465047245,
        binomial(61, 46) == 70539987842520,
        binomial(61, 47) == 22512762077400,
        binomial(61, 48) == 6566222272575,
        binomial(61, 49) == 1742058970275,
        binomial(61, 50) == 418094152866,
        binomial(61, 51) == 90177170226,
        binomial(61, 52) == 17341763505,
        binomial(61, 53) == 2944827765,
        binomial(61, 54) == 436270780,
        binomial(61, 55) == 55525372,
        binomial(61, 56) == 5949147,
        binomial(61, 57) == 521855,
        binomial(61, 58) == 35990,
        binomial(61, 59) == 1830,
        binomial(61, 60) == 61,
        binomial(61, 61) == 1,
        binomial(61, 62) == 0,
{
    lemma_binomial_row_60();
    lemma_binomial_zero(61, 62);
}

/// Row 62 of Pascal's triangle.
proof fn lemma_binomial_row_62()
    ensures
        binomial(62, 0) == 1,
        binomial(62, 1) == 62,
        binomial(62, 2) == 1891,
        binomial(62, 3) == 37820,
        binomial(62, 4) == 557845,
        binomial(62, 5) == 6471002,
        binomial(62, 6) == 61474519,
        binomial(62, 7) == 491796152,
        binomial(62, 8) == 3381098545,
        binomial(62, 9) == 20286591270,
        binomial(62, 10) == 107518933731,
        binomial(62, 11) == 508271323092,
        binomial(62, 12) == 2160153123141,
        binomial(62, 13) == 8308281242850,
        binomial(62, 14) == 29078984349975,
        binomial(62, 15) == 93052749919920,
        binomial(62, 16) == 273342452889765,
        binomial(62, 17) == 739632519584070,
        binomial(62, 18) == 1849081298960175,
        binomial(62, 19) == 4282083008118300,
        binomial(62, 20) == 9206478467454345,
        binomial(62, 21) == 18412956934908690,
        binomial(62, 22) == 34315056105966195,
        binomial(62, 23) == 59678358445158600,
        binomial(62, 24) == 96977332473382725,
        binomial(62, 25) == 147405545359541742,
        binomial(62, 26) == 209769429934732479,
        binomial(62, 27) == 279692573246309972,
        binomial(62, 28) == 349615716557887465,
        binomial(62, 29) == 409894288378212890,
        binomial(62, 30) == 450883717216034179,
        binomial(62, 31) == 465428353255261088,
        binomial(62, 32) == 450883717216034179,
        binomial(62, 33) == 409894288378212890,
        binomial(62, 34) == 349615716557887465,
        binomial(62, 35) == 279692573246309972,
        binomial(62, 36) == 209769429934732479,
        binomial(62, 37) == 147405545359541742,
        binomial(62, 38) == 96977332473382725,
        binomial(62, 39) == 59678358445158600,
        binomial(62, 40) == 34315056105966195,
        binomial(62, 41) == 18412956934908690,
        binomial(62, 42) == 9206478467454345,
        binomial(62, 43) == 4282083008118300,
        binomial(62, 44) == 1849081298960175,
        binomial(62, 45) == 739632519584070,
        binomial(62, 46) == 273342452889765,
        binomial(62, 47) == 93052749919920,
        binomial(62, 48) == 29078984349975,
        binomial(62, 49) == 8308281242850,
        binomial(62, 50) == 2160153123141,
        binomial(62, 51) == 508271323092,
        binomial(62, 52) == 107518933731,
        binomial(62, 53) == 20286591270,
        binomial(62, 54) == 3381098545,
        binomial(62, 55) == 491796152,
        binomial(62, 56) == 61474519,
        binomial(62, 57) == 6471002,
        binomial(62, 58) == 557845,
        binomial(62, 59) == 37820,
        binomial(62, 60) == 1891,
        binomial(62, 61) == 62,
        binomial(62, 62) == 1,
        binomial(62, 63) == 0,
{
    lemma_binomial_row_61();
    lemma_binomial_zero(62, 63);
}

/// Row 63 of Pascal's triangle.
proof fn lemma_binomial_row_63()
    ensures
        binomial(63, 0) == 1,
        binomial(63, 1) == 63,
        binomial(63, 2) == 1953,
        binomial(63, 3) == 39711,
        binomial(63, 4) == 595665,
        binomial(63, 5) == 7028847,
        binomial(63, 6) == 67945521,
        binomial(63, 7) == 553270671,
        binomial(63, 8) == 3872894697,
        binomial(63, 9) == 23667689815,
        binomial(63, 10) == 127805525001,
        binomial(63, 11) == 615790256823,
        binomial(63, 12) == 2668424446233,
        binomial(63, 13) == 10468434365991,
        binomial(63, 14) == 37387265592825,
        binomial(63, 15) == 122131734269895,
        binomial(63, 16) == 366395202809685,
        binomial(63, 17) == 1012974972473835,
        binomial(63, 18) == 2588713818544245,
        binomial(63, 19) == 6131164307078475,
        binomial(63, 20) == 13488561475572645,
        binomial(63, 21) == 27619435402363035,
        binomial(63, 22) == 52728013040874885,
        binomial(63, 23) == 93993414551124795,
        binomial(63, 24) == 156655690918541325,
        binomial(63, 25) == 244382877832924467,
        binomial(63, 26) == 357174975294274221,
        binomial(63, 27) == 489462003181042451,
        binomial(63, 28) == 629308289804197437,
        binomial(63, 29) == 759510004936100355,
        binomial(63, 30) == 860778005594247069,
        binomial(63, 31) == 916312070471295267,
        binomial(63, 32) == 916312070471295267,
        binomial(63, 33) == 860778005594247069,
        binomial(63, 34) == 759510004936100355,
        binomial(63, 35) == 629308289804197437,
        binomial(63, 36) == 489462003181042451,
        binomial(63, 37) == 357174975294274221,
        binomial(63, 38) == 244382877832924467,
        binomial(63, 39) == 156655690918541325,
        binomial(63, 40) == 93993414551124795,
        binomial(63, 41) == 52728013040874885,
        binomial(63, 42) == 27619435402363035,
        binomial(63, 43) == 13488561475572645,
        binomial(63, 44) == 6131164307078475,
        binomial(63, 45) == 2588713818544245,
        binomial(63, 46) == 1012974972473835,
        binomial(63, 47) == 366395202809685,
        binomial(63, 48) == 122131734269895,
        binomial(63, 49) == 37387265592825,
        binomial(63, 50) == 10468434365991,
        binomial(63, 51) == 2668424446233,
        binomial(63, 52) == 615790256823,
        binomial(63, 53) == 127805525001,
        binomial(63, 54) == 23667689815,
        binomial(63, 55) == 3872894697,
        binomial(63, 56) == 553270671,
        binomial(63, 57) == 67945521,
        binomial(63, 58) == 7028847,
        binomial(63, 59) == 595665,
        binomial(63, 60) == 39711,
        binomial(63, 61) == 1953,
        binomial(63, 62) == 63,
        binomial(63, 63) == 1,
        binomial(63, 64) == 0,
{
    lemma_binomial_row_62();
    lemma_binomial_zero(63, 64);
}

/// Row 64 of Pascal's triangle.
proof fn lemma_binomial_row_64()
    ensures
        binomial(64, 0) == 1,
        binomial(64, 1) == 64,
        binomial(64, 2) == 2016,
        binomial(64, 3) == 41664,
        binomial(64, 4) == 635376,
        binomial(64, 5) == 7624512,
        binomial(64, 6) == 74974368,
        binomial(64, 7) == 621216192,
        binomial(64, 8) == 4426165368,
        binomial(64, 9) == 27540584512,
        binomial(64, 10) == 151473214816,
        binomial(64, 11) == 743595781824,
        binomial(64, 12) == 3284214703056,
        binomial(64, 13) == 13136858812224,
        binomial(64, 14) == 47855699958816,
        binomial(64, 15) == 159518999862720,
        binomial(64, 16) == 488526937079580,
        binomial(64, 17) == 1379370175283520,
        binomial(64, 18) == 3601688791018080,
        binomial(64, 19) == 8719878125622720,
        binomial(64, 20) == 19619725782651120,
        binomial(64, 21) == 41107996877935680,
        binomial(64, 22) == 80347448443237920,
        binomial(64, 23) == 146721427591999680,
        binomial(64, 24) == 250649105469666120,
        binomial(64, 25) == 401038568751465792,
        binomial(64, 26) == 601557853127198688,
        binomial(64, 27) == 846636978475316672,
        binomial(64, 28) == 1118770292985239888,
        binomial(64, 29) == 1388818294740297792,
        binomial(64, 30) == 1620288010530347424,
        binomial(64, 31) == 1777090076065542336,
        binomial(64, 32) == 1832624140942590534,
        binomial(64, 33) == 1777090076065542336,
        binomial(64, 34) == 1620288010530347424,
        binomial(64, 35) == 1388818294740297792,
        binomial(64, 36) == 1118770292985239888,
        binomial(64, 37) == 846636978475316672,
        binomial(64, 38) == 601557853127198688,
        binomial(64, 39) == 401038568751465792,
        binomial(64, 40) == 250649105469666120,
        binomial(64, 41) == 146721427591999680,
        binomial(64, 42) == 80347448443237920,
        binomial(64, 43) == 41107996877935680,
        binomial(64, 44) == 19619725782651120,
        binomial(64, 45) == 8719878125622720,
        binomial(64, 46) == 3601688791018080,
        binomial(64, 47) == 1379370175283520,
        binomial(64, 48) == 488526937079580,
        binomial(64, 49) == 159518999862720,
        binomial(64, 50) == 47855699958816,
        binomial(64, 51) == 13136858812224,
        binomial(64, 52) == 3284214703056,
        binomial(64, 53) == 743595781824,
        binomial(64, 54) == 151473214816,
        binomial(64, 55) == 27540584512,
        binomial(64, 56) == 4426165368,
        binomial(64, 57) == 621216192,
        binomial(64, 58) == 74974368,
        binomial(64, 59) == 7624512,
        binomial(64, 60) == 635376,
        binomial(64, 61) == 41664,
        binomial(64, 62) == 2016,
        binomial(64, 63) == 64,
        binomial(64, 64) == 1,
        binomial(64, 65) == 0,
{
    lemma_binomial_row_63();
    lemma_binomial_zero(64, 65);
}

fn row_0(k: usize) -> (c: u64)
    requires
        k <= 0,
    ensures
        c == binomial(0, k as nat),
{
    proof {
        lemma_binomial_row_0();
    }
    match k {
        _ => 1,
    }
}

fn row_1(k: usize) -> (c: u64)
    requires
        k <= 1,
    ensures
        c == binomial(1, k as nat),
{
    proof {
        lemma_binomial_row_1();
    }
    match k {
        0 => 1,
        _ => 1,
    }
}

fn row_2(k: usize) -> (c: u64)
    requires
        k <= 2,
    ensures
        c == binomial(2, k as nat),
{
    proof {
        lemma_binomial_row_2();
    }
    match k {
        0 => 1,
        1 => 2,
        _ => 1,
    }
}

fn row_3(k: usize) -> (c: u64)
    requires
        k <= 3,
    ensures
        c == binomial(3, k as nat),
{
    proof {
        lemma_binomial_row_3();
    }
    match k {
        0 => 1,
        1 => 3,
        2 => 3,
        _ => 1,
    }
}

fn row_4(k: usize) -> (c: u64)
    requires
        k <= 4,
    ensures
        c == binomial(4, k as nat),
{
    proof {
        lemma_binomial_row_4();
    }
    match k {
        0 => 1,
        1 => 4,
        2 => 6,
        3 => 4,
        _ => 1,
    }
}

fn row_5(k: usize) -> (c: u64)
    requires
        k <= 5,
    ensures
        c == binomial(5, k as nat),
{
    proof {
        lemma_binomial_row_5();
    }
    match k {
        0 => 1,
        1 => 5,
        2 => 10,
        3 => 10,
        4 => 5,
        _ => 1,
    }
}

fn row_6(k: usize) -> (c: u64)
    requires
        k <= 6,
    ensures
        c == binomial(6, k as nat),
{
    proof {
        lemma_binomial_row_6();
    }
    match k {
        0 => 1,
        1 => 6,
        2 => 15,
        3 => 20,
        4 => 15,
        5 => 6,
        _ => 1,
    }
}

fn row_7(k: usize) -> (c: u64)
    requires
        k <= 7,
    ensures
        c == binomial(7, k as nat),
{
    proof {
        lemma_binomial_row_7();
    }
    match k {
        0 => 1,
        1 => 7,
        2 => 21,
        3 => 35,
        4 => 35,
        5 => 21,
        6 => 7,
        _ => 1,
    }
}

fn row_8(k: usize) -> (c: u64)
    requires
        k <= 8,
    ensures
        c == binomial(8, k as nat),
{
    proof {
        lemma_binomial_row_8();
    }
    match k {
        0 => 1,
        1 => 8,
        2 => 28,
        3 => 56,
        4 => 70,
        5 => 56,
        6 => 28,
        7 => 8,
        _ => 1,
    }
}

fn row_9(k: usize) -> (c: u64)
    requires
        k <= 9,
    ensures
        c == binomial(9, k as nat),
{
    proof {
        lemma_binomial_row_9();
    }
    match k {
        0 => 1,
        1 => 9,
        2 => 36,
        3 => 84,
        4 => 126,
        5 => 126,
        6 => 84,
        7 => 36,
        8 => 9,
        _ => 1,
    }
}

fn row_10(k: usize) -> (c: u64)
    requires
        k <= 10,
    ensures
        c == binomial(10, k as nat),
{
    proof {
        lemma_binomial_row_10();
    }
    match k {
        0 => 1,
        1 => 10,
        2 => 45,
        3 => 120,
        4 => 210,
        5 => 252,
        6 => 210,
        7 => 120,
        8 => 45,
        9 => 10,
        _ => 1,
    }
}

fn row_11(k: usize) -> (c: u64)
    requires
        k <= 11,
    ensures
        c == binomial(11, k as nat),
{
    proof {
        lemma_binomial_row_11();
    }
    match k {
        0 => 1,
        1 => 11,
        2 => 55,
        3 => 165,
        4 => 330,
        5 => 462,
        6 => 462,
        7 => 330,
        8 => 165,
        9 => 55,
        10 => 11,
        _ => 1,
    }
}

fn row_12(k: usize) -> (c: u64)
    requires
        k <= 12,
    ensures
        c == binomial(12, k as nat),
{
    proof {
        lemma_binomial_row_12();
    }
    match k {
        0 => 1,
        1 => 12,
        2 => 66,
        3 => 220,
        4 => 495,
        5 => 792,
        6 => 924,
        7 => 792,
        8 => 495,
        9 => 220,
        10 => 66,
        11 => 12,
        _ => 1,
    }
}

fn row_13(k: usize) -> (c: u64)
    requires
        k <= 13,
    ensures
        c == binomial(13, k as nat),
{
    proof {
        lemma_binomial_row_13();
    }
    match k {
        0 => 1,
        1 => 13,
        2 => 78,
        3 => 286,
        4 => 715,
        5 => 1287,
        6 => 1716,
        7 => 1716,
        8 => 1287,
        9 => 715,
        10 => 286,
        11 => 78,
        12 => 13,
        _ => 1,
    }
}

fn row_14(k: usize) -> (c: u64)
    requires
        k <= 14,
    ensures
        c == binomial(14, k as nat),
{
    proof {
        lemma_binomial_row_14();
    }
    match k {
        0 => 1,
        1 => 14,
        2 => 91,
        3 => 364,
        4 => 1001,
        5 => 2002,
        6 => 3003,
        7 => 3432,
        8 => 3003,
        9 => 2002,
        10 => 1001,
        11 => 364,
        12 => 91,
        13 => 14,
        _ => 1,
    }
}

fn row_15(k: usize) -> (c: u64)
    requires
        k <= 15,
    ensures
        c == binomial(15, k as nat),
{
    proof {
        lemma_binomial_row_15();
    }
    match k {
        0 => 1,
        1 => 15,
        2 => 105,
        3 => 455,
        4 => 1365,
        5 => 3003,
        6 => 5005,
        7 => 6435,
        8 => 6435,
        9 => 5005,
        10 => 3003,
        11 => 1365,
        12 => 455,
        13 => 105,
        14 => 15,
        _ => 1,
    }
}

fn row_16(k: usize) -> (c: u64)
    requires
        k <= 16,
    ensures
        c == binomial(16, k as nat),
{
    proof {
        lemma_binomial_row_16();
    }
    match k {
        0 => 1,
        1 => 16,
        2 => 120,
        3 => 560,
        4 => 1820,
        5 => 4368,
        6 => 8008,
        7 => 11440,
        8 => 12870,
        9 => 11440,
        10 => 8008,
        11 => 4368,
        12 => 1820,
        13 => 560,
        14 => 120,
        15 => 16,
        _ => 1,
    }
}

fn row_17(k: usize) -> (c: u64)
    requires
        k <= 17,
    ensures
        c == binomial(17, k as nat),
{
    proof {
        lemma_binomial_row_17();
    }
    match k {
        0 => 1,
        1 => 17,
        2 => 136,
        3 => 680,
        4 => 2380,
        5 => 6188,
        6 => 12376,
        7 => 19448,
        8 => 24310,
        9 => 24310,
        10 => 19448,
        11 => 12376,
        12 => 6188,
        13 => 2380,
        14 => 680,
        15 => 136,
        16 => 17,
        _ => 1,
    }
}

fn row_18(k: usize) -> (c: u64)
    requires
        k <= 18,
    ensures
        c == binomial(18, k as nat),
{
    proof {
        lemma_binomial_row_18();
    }
    match k {
        0 => 1,
        1 => 18,
        2 => 153,
        3 => 816,
        4 => 3060,
        5 => 8568,
        6 => 18564,
        7 => 31824,
        8 => 43758,
        9 => 48620,
        10 => 43758,
        11 => 31824,
        12 => 18564,
        13 => 8568,
        14 => 3060,
        15 => 816,
        16 => 153,
        17 => 18,
        _ => 1,
    }
}

fn row_19(k: usize) -> (c: u64)
    requires
        k <= 19,
    ensures
        c == binomial(19, k as nat),
{
    proof {
        lemma_binomial_row_19();
    }
    match k {
        0 => 1,
        1 => 19,
        2 => 171,
        3 => 969,
        4 => 3876,
        5 => 11628,
        6 => 27132,
        7 => 50388,
        8 => 75582,
        9 => 92378,
        10 => 92378,
        11 => 75582,
        12 => 50388,
        13 => 27132,
        14 => 11628,
        15 => 3876,
        16 => 969,
        17 => 171,
        18 => 19,
        _ => 1,
    }
}

fn row_20(k: usize) -> (c: u64)
    requires
        k <= 20,
    ensures
        c == binomial(20, k as nat),
{
    proof {
        lemma_binomial_row_20();
    }
    match k {
        0 => 1,
        1 => 20,
        2 => 190,
        3 => 1140,
        4 => 4845,
        5 => 15504,
        6 => 38760,
        7 => 77520,
        8 => 125970,
        9 => 167960,
        10 => 184756,
        11 => 167960,
        12 => 125970,
        13 => 77520,
        14 => 38760,
        15 => 15504,
        16 => 4845,
        17 => 1140,
        18 => 190,
        19 => 20,
        _ => 1,
    }
}

fn row_21(k: usize) -> (c: u64)
    requires
        k <= 21,
    ensures
        c == binomial(21, k as nat),
{
    proof {
        lemma_binomial_row_21();
    }
    match k {
        0 => 1,
        1 => 21,
        2 => 210,
        3 => 1330,
        4 => 5985,
        5 => 20349,
        6 => 54264,
        7 => 116280,
        8 => 203490,
        9 => 293930,
        10 => 352716,
        11 => 352716,
        12 => 293930,
        13 => 203490,
        14 => 116280,
        15 => 54264,
        16 => 20349,
        17 => 5985,
        18 => 1330,
        19 => 210,
        20 => 21,
        _ => 1,
    }
}

fn row_22(k: usize) -> (c: u64)
    requires
        k <= 22,
    ensures
        c == binomial(22, k as nat),
{
    proof {
        lemma_binomial_row_22();
    }
    match k {
        0 => 1,
        1 => 22,
        2 => 231,
        3 => 1540,
        4 => 7315,
        5 => 26334,
        6 => 74613,
        7 => 170544,
        8 => 319770,
        9 => 497420,
        10 => 646646,
        11 => 705432,
        12 => 646646,
        13 => 497420,
        14 => 319770,
        15 => 170544,
        16 => 74613,
        17 => 26334,
        18 => 7315,
        19 => 1540,
        20 => 231,
        21 => 22,
        _ => 1,
    }
}

fn row_23(k: usize) -> (c: u64)
    requires
        k <= 23,
    ensures
        c == binomial(23, k as nat),
{
    proof {
        lemma_binomial_row_23();
    }
    match k {
        0 => 1,
        1 => 23,
        2 => 253,
        3 => 1771,
        4 => 8855,
        5 => 33649,
        6 => 100947,
        7 => 245157,
        8 => 490314,
        9 => 817190,
        10 => 1144066,
        11 => 1352078,
        12 => 1352078,
        13 => 1144066,
        14 => 817190,
        15 => 490314,
        16 => 245157,
        17 => 100947,
        18 => 33649,
        19 => 8855,
        20 => 1771,
        21 => 253,
        22 => 23,
        _ => 1,
    }
}

fn row_24(k: usize) -> (c: u64)
    requires
        k <= 24,
    ensures
        c == binomial(24, k as nat),
{
    proof {
        lemma_binomial_row_24();
    }
    match k {
        0 => 1,
        1 => 24,
        2 => 276,
        3 => 2024,
        4 => 10626,
        5 => 42504,
        6 => 134596,
        7 => 346104,
        8 => 735471,
        9 => 1307504,
        10 => 1961256,
        11 => 2496144,
        12 => 2704156,
        13 => 2496144,
        14 => 1961256,
        15 => 1307504,
        16 => 735471,
        17 => 346104,
        18 => 134596,
        19 => 42504,
        20 => 10626,
        21 => 2024,
        22 => 276,
        23 => 24,
        _ => 1,
    }
}

fn row_25(k: usize) -> (c: u64)
    requires
        k <= 25,
    ensures
        c == binomial(25, k as nat),
{
    proof {
        lemma_binomial_row_25();
    }
    match k {
        0 => 1,
        1 => 25,
        2 => 300,
        3 => 2300,
        4 => 12650,
        5 => 53130,
        6 => 177100,
        7 => 480700,
        8 => 1081575,
        9 => 2042975,
        10 => 3268760,
        11 => 4457400,
        12 => 5200300,
        13 => 5200300,
        14 => 4457400,
        15 => 3268760,
        16 => 2042975,
        17 => 1081575,
        18 => 480700,
        19 => 177100,
        20 => 53130,
        21 => 12650,
        22 => 2300,
        23 => 300,
        24 => 25,
        _ => 1,
    }
}

fn row_26(k: usize) -> (c: u64)
    requires
        k <= 26,
    ensures
        c == binomial(26, k as nat),
{
    proof {
        lemma_binomial_row_26();
    }
    match k {
        0 => 1,
        1 => 26,
        2 => 325,
        3 => 2600,
        4 => 14950,
        5 => 65780,
        6 => 230230,
        7 => 657800,
        8 => 1562275,
        9 => 3124550,
        10 => 5311735,
        11 => 7726160,
        12 => 9657700,
        13 => 10400600,
        14 => 9657700,
        15 => 7726160,
        16 => 5311735,
        17 => 3124550,
        18 => 1562275,
        19 => 657800,
        20 => 230230,
        21 => 65780,
        22 => 14950,
        23 => 2600,
        24 => 325,
        25 => 26,
        _ => 1,
    }
}

fn row_27(k: usize) -> (c: u64)
    requires
        k <= 27,
    ensures
        c == binomial(27, k as nat),
{
    proof {
        lemma_binomial_row_27();
    }
    match k {
        0 => 1,
        1 => 27,
        2 => 351,
        3 => 2925,
        4 => 17550,
        5 => 80730,
        6 => 296010,
        7 => 888030,
        8 => 2220075,
        9 => 4686825,
        10 => 8436285,
        11 => 13037895,
        12 => 17383860,
        13 => 20058300,
        14 => 20058300,
        15 => 17383860,
        16 => 13037895,
        17 => 8436285,
        18 => 4686825,
        19 => 2220075,
        20 => 888030,
        21 => 296010,
        22 => 80730,
        23 => 17550,
        24 => 2925,
        25 => 351,
        26 => 27,
        _ => 1,
    }
}

fn row_28(k: usize) -> (c: u64)
    requires
        k <= 28,
    ensures
        c == binomial(28, k as nat),
{
    proof {
        lemma_binomial_row_28();
    }
    match k {
        0 => 1,
        1 => 28,
        2 => 378,
        3 => 3276,
        4 => 20475,
        5 => 98280,
        6 => 376740,
        7 => 1184040,
        8 => 3108105,
        9 => 6906900,
        10 => 13123110,
        11 => 21474180,
        12 => 30421755,
        13 => 37442160,
        14 => 40116600,
        15 => 37442160,
        16 => 30421755,
        17 => 21474180,
        18 => 13123110,
        19 => 6906900,
        20 => 3108105,
        21 => 1184040,
        22 => 376740,
        23 => 98280,
        24 => 20475,
        25 => 3276,
        26 => 378,
        27 => 28,
        _ => 1,
    }
}

fn row_29(k: usize) -> (c: u64)
    requires
        k <= 29,
    ensures
        c == binomial(29, k as nat),
{
    proof {
        lemma_binomial_row_29();
    }
    match k {
        0 => 1,
        1 => 29,
        2 => 406,
        3 => 3654,
        4 => 23751,
        5 => 118755,
        6 => 475020,
        7 => 1560780,
        8 => 4292145,
        9 => 10015005,
        10 => 20030010,
        11 => 34597290,
        12 => 51895935,
        13 => 67863915,
        14 => 77558760,
        15 => 77558760,
        16 => 67863915,
        17 => 51895935,
        18 => 34597290,
        19 => 20030010,
        20 => 10015005,
        21 => 4292145,
        22 => 1560780,
        23 => 475020,
        24 => 118755,
        25 => 23751,
        26 => 3654,
        27 => 406,
        28 => 29,
        _ => 1,
    }
}

fn row_30(k: usize) -> (c: u64)
    requires
        k <= 30,
    ensures
        c == binomial(30, k as nat),
{
    proof {
        lemma_binomial_row_30();
    }
    match k {
        0 => 1,
        1 => 30,
        2 => 435,
        3 => 4060,
        4 => 27405,
        5 => 142506,
        6 => 593775,
        7 => 2035800,
        8 => 5852925,
        9 => 14307150,
        10 => 30045015,
        11 => 54627300,
        12 => 86493225,
        13 => 119759850,
        14 => 145422675,
        15 => 155117520,
        16 => 145422675,
        17 => 119759850,
        18 => 86493225,
        19 => 54627300,
        20 => 30045015,
        21 => 14307150,
        22 => 5852925,
        23 => 2035800,
        24 => 593775,
        25 => 142506,
        26 => 27405,
        27 => 4060,
        28 => 435,
        29 => 30,
        _ => 1,
    }
}

fn row_31(k: usize) -> (c: u64)
    requires
        k <= 31,
    ensures
        c == binomial(31, k as nat),
{
    proof {
        lemma_binomial_row_31();
    }
    match k {
        0 => 1,
        1 => 31,
        2 => 465,
        3 => 4495,
        4 => 31465,
        5 => 169911,
        6 => 736281,
        7 => 2629575,
        8 => 7888725,
        9 => 20160075,
        10 => 44352165,
        11 => 84672315,
        12 => 141120525,
        13 => 206253075,
        14 => 265182525,
        15 => 300540195,
        16 => 300540195,
        17 => 265182525,
        18 => 206253075,
        19 => 141120525,
        20 => 84672315,
        21 => 44352165,
        22 => 20160075,
        23 => 7888725,
        24 => 2629575,
        25 => 736281,
        26 => 169911,
        27 => 31465,
        28 => 4495,
        29 => 465,
        30 => 31,
        _ => 1,
    }
}

fn row_32(k: usize) -> (c: u64)
    requires
        k <= 32,
    ensures
        c == binomial(32, k as nat),
{
    proof {
        lemma_binomial_row_32();
    }
    match k {
        0 => 1,
        1 => 32,
        2 => 496,
        3 => 4960,
        4 => 35960,
        5 => 201376,
        6 => 906192,
        7 => 3365856,
        8 => 10518300,
        9 => 28048800,
        10 => 64512240,
        11 => 129024480,
        12 => 225792840,
        13 => 347373600,
        14 => 471435600,
        15 => 565722720,
        16 => 601080390,
        17 => 565722720,
        18 => 471435600,
        19 => 347373600,
        20 => 225792840,
        21 => 129024480,
        22 => 64512240,
        23 => 28048800,
        24 => 10518300,
        25 => 3365856,
        26 => 906192,
        27 => 201376,
        28 => 35960,
        29 => 4960,
        30 => 496,
        31 => 32,
        _ => 1,
    }
}

fn row_33(k: usize) -> (c: u64)
    requires
        k <= 33,
    ensures
        c == binomial(33, k as nat),
{
    proof {
        lemma_binomial_row_33();
    }
    match k {
        0 => 1,
        1 => 33,
        2 => 528,
        3 => 5456,
        4 => 40920,
        5 => 237336,
        6 => 1107568,
        7 => 4272048,
        8 => 13884156,
        9 => 38567100,
        10 => 92561040,
        11 => 193536720,
        12 => 354817320,
        13 => 573166440,
        14 => 818809200,
        15 => 1037158320,
        16 => 1166803110,
        17 => 1166803110,
        18 => 1037158320,
        19 => 818809200,
        20 => 573166440,
        21 => 354817320,
        22 => 193536720,
        23 => 92561040,
        24 => 38567100,
        25 => 13884156,
        26 => 4272048,
        27 => 1107568,
        28 => 237336,
        29 => 40920,
        30 => 5456,
        31 => 528,
        32 => 33,
        _ => 1,
    }
}

fn row_34(k: usize) -> (c: u64)
    requires
        k <= 34,
    ensures
        c == binomial(34, k as nat),
{
    proof {
        lemma_binomial_row_34();
    }
    match k {
        0 => 1,
        1 => 34,
        2 => 561,
        3 => 5984,
        4 => 46376,
        5 => 278256,
        6 => 1344904,
        7 => 5379616,
        8 => 18156204,
        9 => 52451256,
        10 => 131128140,
        11 => 286097760,
        12 => 548354040,
        13 => 927983760,
        14 => 1391975640,
        15 => 1855967520,
        16 => 2203961430,
        17 => 2333606220,
        18 => 2203961430,
        19 => 1855967520,
        20 => 1391975640,
        21 => 927983760,
        22 => 548354040,
        23 => 286097760,
        24 => 131128140,
        25 => 52451256,
        26 => 18156204,
        27 => 5379616,
        28 => 1344904,
        29 => 278256,
        30 => 46376,
        31 => 5984,
        32 => 561,
        33 => 34,
        _ => 1,
    }
}

fn row_35(k: usize) -> (c: u64)
    requires
        k <= 35,
    ensures
        c == binomial(35, k as nat),
{
    proof {
        lemma_binomial_row_35();
    }
    match k {
        0 => 1,
        1 => 35,
        2 => 595,
        3 => 6545,
        4 => 52360,
        5 => 324632,
        6 => 1623160,
        7 => 6724520,
        8 => 23535820,
        9 => 70607460,
        10 => 183579396,
        11 => 417225900,
        12 => 834451800,
        13 => 1476337800,
        14 => 2319959400,
        15 => 3247943160,
        16 => 4059928950,
        17 => 4537567650,
        18 => 4537567650,
        19 => 4059928950,
        20 => 3247943160,
        21 => 2319959400,
        22 => 1476337800,
        23 => 834451800,
        24 => 417225900,
        25 => 183579396,
        26 => 70607460,
        27 => 23535820,
        28 => 6724520,
        29 => 1623160,
        30 => 324632,
        31 => 52360,
        32 => 6545,
        33 => 595,
        34 => 35,
        _ => 1,
    }
}

fn row_36(k: usize) -> (c: u64)
    requires
        k <= 36,
    ensures
        c == binomial(36, k as nat),
{
    proof {
        lemma_binomial_row_36();
    }
    match k {
        0 => 1,
        1 => 36,
        2 => 630,
        3 => 7140,
        4 => 58905,
        5 => 376992,
        6 => 1947792,
        7 => 8347680,
        8 => 30260340,
        9 => 94143280,
        10 => 254186856,
        11 => 600805296,
        12 => 1251677700,
        13 => 2310789600,
        14 => 3796297200,
        15 => 5567902560,
        16 => 7307872110,
        17 => 8597496600,
        18 => 9075135300,
        19 => 8597496600,
        20 => 7307872110,
        21 => 5567902560,
        22 => 3796297200,
        23 => 2310789600,
        24 => 1251677700,
        25 => 600805296,
        26 => 254186856,
        27 => 94143280,
        28 => 30260340,
        29 => 8347680,
        30 => 1947792,
        31 => 376992,
        32 => 58905,
        33 => 7140,
        34 => 630,
        35 => 36,
        _ => 1,
    }
}

fn row_37(k: usize) -> (c: u64)
    requires
        k <= 37,
    ensures
        c == binomial(37, k as nat),
{
    proof {
        lemma_binomial_row_37();
    }
    match k {
        0 => 1,
        1 => 37,
        2 => 666,
        3 => 7770,
        4 => 66045,
        5 => 435897,
        6 => 2324784,
        7 => 10295472,
        8 => 38608020,
        9 => 124403620,
        10 => 348330136,
        11 => 854992152,
        12 => 1852482996,
        13 => 3562467300,
        14 => 6107086800,
        15 => 9364199760,
        16 => 12875774670,
        17 => 15905368710,
        18 => 17672631900,
        19 => 17672631900,
        20 => 15905368710,
        21 => 12875774670,
        22 => 9364199760,
        23 => 6107086800,
        24 => 3562467300,
        25 => 1852482996,
        26 => 854992152,
        27 => 348330136,
        28 => 124403620,
        29 => 38608020,
        30 => 10295472,
        31 => 2324784,
        32 => 435897,
        33 => 66045,
        34 => 7770,
        35 => 666,
        36 => 37,
        _ => 1,
    }
}

fn row_38(k: usize) -> (c: u64)
    requires
        k <= 38,
    ensures
        c == binomial(38, k as nat),
{
    proof {
        lemma_binomial_row_38();
    }
    match k {
        0 => 1,
        1 => 38,
        2 => 703,
        3 => 8436,
        4 => 73815,
        5 => 501942,
        6 => 2760681,
        7 => 12620256,
        8 => 48903492,
        9 => 163011640,
        10 => 472733756,
        11 => 1203322288,
        12 => 2707475148,
        13 => 5414950296,
        14 => 9669554100,
        15 => 15471286560,
        16 => 22239974430,
        17 => 28781143380,
        18 => 33578000610,
        19 => 35345263800,
        20 => 33578000610,
        21 => 28781143380,
        22 => 22239974430,
        23 => 15471286560,
        24 => 9669554100,
        25 => 5414950296,
        26 => 2707475148,
        27 => 1203322288,
        28 => 472733756,
        29 => 163011640,
        30 => 48903492,
        31 => 12620256,
        32 => 2760681,
        33 => 501942,
        34 => 73815,
        35 => 8436,
        36 => 703,
        37 => 38,
        _ => 1,
    }
}

fn row_39(k: usize) -> (c: u64)
    requires
        k <= 39,
    ensures
        c == binomial(39, k as nat),
{
    proof {
        lemma_binomial_row_39();
    }
    match k {
        0 => 1,
        1 => 39,
        2 => 741,
        3 => 9139,
        4 => 82251,
        5 => 575757,
        6 => 3262623,
        7 => 15380937,
        8 => 61523748,
        9 => 211915132,
        10 => 635745396,
        11 => 1676056044,
        12 => 3910797436,
        13 => 8122425444,
        14 => 15084504396,
        15 => 25140840660,
        16 => 37711260990,
        17 => 51021117810,
        18 => 62359143990,
        19 => 68923264410,
        20 => 68923264410,
        21 => 62359143990,
        22 => 51021117810,
        23 => 37711260990,
        24 => 25140840660,
        25 => 15084504396,
        26 => 8122425444,
        27 => 3910797436,
        28 => 1676056044,
        29 => 635745396,
        30 => 211915132,
        31 => 61523748,
        32 => 15380937,
        33 => 3262623,
        34 => 575757,
        35 => 82251,
        36 => 9139,
        37 => 741,
        38 => 39,
        _ => 1,
    }
}

fn row_40(k: usize) -> (c: u64)
    requires
        k <= 40,
    ensures
        c == binomial(40, k as nat),
{
    proof {
        lemma_binomial_row_40();
    }
    match k {
        0 => 1,
        1 => 40,
        2 => 780,
        3 => 9880,
        4 => 91390,
        5 => 658008,
        6 => 3838380,
        7 => 18643560,
        8 => 76904685,
        9 => 273438880,
        10 => 847660528,
        11 => 2311801440,
        12 => 5586853480,
        13 => 12033222880,
        14 => 23206929840,
        15 => 40225345056,
        16 => 62852101650,
        17 => 88732378800,
        18 => 113380261800,
        19 => 131282408400,
        20 => 137846528820,
        21 => 131282408400,
        22 => 113380261800,
        23 => 88732378800,
        24 => 62852101650,
        25 => 40225345056,
        26 => 23206929840,
        27 => 12033222880,
        28 => 5586853480,
        29 => 2311801440,
        30 => 847660528,
        31 => 273438880,
        32 => 76904685,
        33 => 18643560,
        34 => 3838380,
        35 => 658008,
        36 => 91390,
        37 => 9880,
        38 => 780,
        39 => 40,
        _ => 1,
    }
}

fn row_41(k: usize) -> (c: u64)
    requires
        k <= 41,
    ensures
        c == binomial(41, k as nat),
{
    proof {
        lemma_binomial_row_41();
    }
    match k {
        0 => 1,
        1 => 41,
        2 => 820,
        3 => 10660,
        4 => 101270,
        5 => 749398,
        6 => 4496388,
        7 => 22481940,
        8 => 95548245,
        9 => 350343565,
        10 => 1121099408,
        11 => 3159461968,
        12 => 7898654920,
        13 => 17620076360,
        14 => 35240152720,
        15 => 63432274896,
        16 => 103077446706,
        17 => 151584480450,
        18 => 202112640600,
        19 => 244662670200,
        20 => 269128937220,
        21 => 269128937220,
        22 => 244662670200,
        23 => 202112640600,
        24 => 151584480450,
        25 => 103077446706,
        26 => 63432274896,
        27 => 35240152720,
        28 => 17620076360,
        29 => 7898654920,
        30 => 3159461968,
        31 => 1121099408,
        32 => 350343565,
        33 => 95548245,
        34 => 22481940,
        35 => 4496388,
        36 => 749398,
        37 => 101270,
        38 => 10660,
        39 => 820,
        40 => 41,
        _ => 1,
    }
}

fn row_42(k: usize) -> (c: u64)
    requires
        k <= 42,
    ensures
        c == binomial(42, k as nat),
{
    proof {
        lemma_binomial_row_42();
    }
    match k {
        0 => 1,
        1 => 42,
        2 => 861,
        3 => 11480,
        4 => 111930,
        5 => 850668,
        6 => 5245786,
        7 => 26978328,
        8 => 118030185,
        9 => 445891810,
        10 => 1471442973,
        11 => 4280561376,
        12 => 11058116888,
        13 => 25518731280,
        14 => 52860229080,
        15 => 98672427616,
        16 => 166509721602,
        17 => 254661927156,
        18 => 353697121050,
        19 => 446775310800,
        20 => 513791607420,
        21 => 538257874440,
        22 => 513791607420,
        23 => 446775310800,
        24 => 353697121050,
        25 => 254661927156,
        26 => 166509721602,
        27 => 98672427616,
        28 => 52860229080,
        29 => 25518731280,
        30 => 11058116888,
        31 => 4280561376,
        32 => 1471442973,
        33 => 445891810,
        34 => 118030185,
        35 => 26978328,
        36 => 5245786,
        37 => 850668,
        38 => 111930,
        39 => 11480,
        40 => 861,
        41 => 42,
        _ => 1,
    }
}

fn row_43(k: usize) -> (c: u64)
    requires
        k <= 43,
    ensures
        c == binomial(43, k as nat),
{
    proof {
        lemma_binomial_row_43();
    }
    match k {
        0 => 1,
        1 => 43,
        2 => 903,
        3 => 12341,
        4 => 123410,
        5 => 962598,
        6 => 6096454,
        7 => 32224114,
        8 => 145008513,
        9 => 563921995,
        10 => 1917334783,
        11 => 5752004349,
        12 => 15338678264,
        13 => 36576848168,
        14 => 78378960360,
        15 => 151532656696,
        16 => 265182149218,
        17 => 421171648758,
        18 => 608359048206,
        19 => 800472431850,
        20 => 960566918220,
        21 => 1052049481860,
        22 => 1052049481860,
        23 => 960566918220,
        24 => 800472431850,
        25 => 608359048206,
        26 => 421171648758,
        27 => 265182149218,
        28 => 151532656696,
        29 => 78378960360,
        30 => 36576848168,
        31 => 15338678264,
        32 => 5752004349,
        33 => 1917334783,
        34 => 563921995,
        35 => 145008513,
        36 => 32224114,
        37 => 6096454,
        38 => 962598,
        39 => 123410,
        40 => 12341,
        41 => 903,
        42 => 43,
        _ => 1,
    }
}

fn row_44(k: usize) -> (c: u64)
    requires
        k <= 44,
    ensures
        c == binomial(44, k as nat),
{
    proof {
        lemma_binomial_row_44();
    }
    match k {
        0 => 1,
        1 => 44,
        2 => 946,
        3 => 13244,
        4 => 135751,
        5 => 1086008,
        6 => 7059052,
        7 => 38320568,
        8 => 177232627,
        9 => 708930508,
        10 => 2481256778,
        11 => 7669339132,
        12 => 21090682613,
        13 => 51915526432,
        14 => 114955808528,
        15 => 229911617056,
        16 => 416714805914,
        17 => 686353797976,
        18 => 1029530696964,
        19 => 1408831480056,
        20 => 1761039350070,
        21 => 2012616400080,
        22 => 2104098963720,
        23 => 2012616400080,
        24 => 1761039350070,
        25 => 1408831480056,
        26 => 1029530696964,
        27 => 686353797976,
        28 => 416714805914,
        29 => 229911617056,
        30 => 114955808528,
        31 => 51915526432,
        32 => 21090682613,
        33 => 7669339132,
        34 => 2481256778,
        35 => 708930508,
        36 => 177232627,
        37 => 38320568,
        38 => 7059052,
        39 => 1086008,
        40 => 135751,
        41 => 13244,
        42 => 946,
        43 => 44,
        _ => 1,
    }
}

fn row_45(k: usize) -> (c: u64)
    requires
        k <= 45,
    ensures
        c == binomial(45, k as nat),
{
    proof {
        lemma_binomial_row_45();
    }
    match k {
        0 => 1,
        1 => 45,
        2 => 990,
        3 => 14190,
        4 => 148995,
        5 => 1221759,
        6 => 8145060,
        7 => 45379620,
        8 => 215553195,
        9 => 886163135,
        10 => 3190187286,
        11 => 10150595910,
        12 => 28760021745,
        13 => 73006209045,
        14 => 166871334960,
        15 => 344867425584,
        16 => 646626422970,
        17 => 1103068603890,
        18 => 1715884494940,
        19 => 2438362177020,
        20 => 3169870830126,
        21 => 3773655750150,
        22 => 4116715363800,
        23 => 4116715363800,
        24 => 3773655750150,
        25 => 3169870830126,
        26 => 2438362177020,
        27 => 1715884494940,
        28 => 1103068603890,
        29 => 646626422970,
        30 => 344867425584,
        31 => 166871334960,
        32 => 73006209045,
        33 => 28760021745,
        34 => 10150595910,
        35 => 3190187286,
        36 => 886163135,
        37 => 215553195,
        38 => 45379620,
        39 => 8145060,
        40 => 1221759,
        41 => 148995,
        42 => 14190,
        43 => 990,
        44 => 45,
        _ => 1,
    }
}

fn row_46(k: usize) -> (c: u64)
    requires
        k <= 46,
    ensures
        c == binomial(46, k as nat),
{
    proof {
        lemma_binomial_row_46();
    }
    match k {
        0 => 1,
        1 => 46,
        2 => 1035,
        3 => 15180,
        4 => 163185,
        5 => 1370754,
        6 => 9366819,
        7 => 53524680,
        8 => 260932815,
        9 => 1101716330,
        10 => 4076350421,
        11 => 13340783196,
        12 => 38910617655,
        13 => 101766230790,
        14 => 239877544005,
        15 => 511738760544,
        16 => 991493848554,
        17 => 1749695026860,
        18 => 2818953098830,
        19 => 4154246671960,
        20 => 5608233007146,
        21 => 6943526580276,
        22 => 7890371113950,
        23 => 8233430727600,
        24 => 7890371113950,
        25 => 6943526580276,
        26 => 5608233007146,
        27 => 4154246671960,
        28 => 2818953098830,
        29 => 1749695026860,
        30 => 991493848554,
        31 => 511738760544,
        32 => 239877544005,
        33 => 101766230790,
        34 => 38910617655,
        35 => 13340783196,
        36 => 4076350421,
        37 => 1101716330,
        38 => 260932815,
        39 => 53524680,
        40 => 9366819,
        41 => 1370754,
        42 => 163185,
        43 => 15180,
        44 => 1035,
        45 => 46,
        _ => 1,
    }
}

fn row_47(k: usize) -> (c: u64)
    requires
        k <= 47,
    ensures
        c == binomial(47, k as nat),
{
    proof {
        lemma_binomial_row_47();
    }
    match k {
        0 => 1,
        1 => 47,
        2 => 1081,
        3 => 16215,
        4 => 178365,
        5 => 1533939,
        6 => 10737573,
        7 => 62891499,
        8 => 314457495,
        9 => 1362649145,
        10 => 5178066751,
        11 => 17417133617,
        12 => 52251400851,
        13 => 140676848445,
        14 => 341643774795,
        15 => 751616304549,
        16 => 1503232609098,
        17 => 2741188875414,
        18 => 4568648125690,
        19 => 6973199770790,
        20 => 9762479679106,
        21 => 12551759587422,
        22 => 14833897694226,
        23 => 16123801841550,
        24 => 16123801841550,
        25 => 14833897694226,
        26 => 12551759587422,
        27 => 9762479679106,
        28 => 6973199770790,
        29 => 4568648125690,
        30 => 2741188875414,
        31 => 1503232609098,
        32 => 751616304549,
        33 => 341643774795,
        34 => 140676848445,
        35 => 52251400851,
        36 => 17417133617,
        37 => 5178066751,
        38 => 1362649145,
        39 => 314457495,
        40 => 62891499,
        41 => 10737573,
        42 => 1533939,
        43 => 178365,
        44 => 16215,
        45 => 1081,
        46 => 47,
        _ => 1,
    }
}

fn row_48(k: usize) -> (c: u64)
    requires
        k <= 48,
    ensures
        c == binomial(48, k as nat),
{
    proof {
        lemma_binomial_row_48();
    }
    match k {
        0 => 1,
        1 => 48,
        2 => 1128,
        3 => 17296,
        4 => 194580,
        5 => 1712304,
        6 => 12271512,
        7 => 73629072,
        8 => 377348994,
        9 => 1677106640,
        10 => 6540715896,
        11 => 22595200368,
        12 => 69668534468,
        13 => 192928249296,
        14 => 482320623240,
        15 => 1093260079344,
        16 => 2254848913647,
        17 => 4244421484512,
        18 => 7309837001104,
        19 => 11541847896480,
        20 => 16735679449896,
        21 => 22314239266528,
        22 => 27385657281648,
        23 => 30957699535776,
        24 => 32247603683100,
        25 => 30957699535776,
        26 => 27385657281648,
        27 => 22314239266528,
        28 => 16735679449896,
        29 => 11541847896480,
        30 => 7309837001104,
        31 => 4244421484512,
        32 => 2254848913647,
        33 => 1093260079344,
        34 => 482320623240,
        35 => 192928249296,
        36 => 69668534468,
        37 => 22595200368,
        38 => 6540715896,
        39 => 1677106640,
        40 => 377348994,
        41 => 73629072,
        42 => 12271512,
        43 => 1712304,
        44 => 194580,
        45 => 17296,
        46 => 1128,
        47 => 48,
        _ => 1,
    }
}

fn row_49(k: usize) -> (c: u64)
    requires
        k <= 49,
    ensures
        c == binomial(49, k as nat),
{
    proof {
        lemma_binomial_row_49();
    }
    match k {
        0 => 1,
        1 => 49,
        2 => 1176,
        3 => 18424,
        4 => 211876,
        5 => 1906884,
        6 => 13983816,
        7 => 85900584,
        8 => 450978066,
        9 => 2054455634,
        10 => 8217822536,
        11 => 29135916264,
        12 => 92263734836,
        13 => 262596783764,
        14 => 675248872536,
        15 => 1575580702584,
        16 => 3348108992991,
        17 => 6499270398159,
        18 => 11554258485616,
        19 => 18851684897584,
        20 => 28277527346376,
        21 => 39049918716424,
        22 => 49699896548176,
        23 => 58343356817424,
        24 => 63205303218876,
        25 => 63205303218876,
        26 => 58343356817424,
        27 => 49699896548176,
        28 => 39049918716424,
        29 => 28277527346376,
        30 => 18851684897584,
        31 => 11554258485616,
        32 => 6499270398159,
        33 => 3348108992991,
        34 => 1575580702584,
        35 => 675248872536,
        36 => 262596783764,
        37 => 92263734836,
        38 => 29135916264,
        39 => 8217822536,
        40 => 2054455634,
        41 => 450978066,
        42 => 85900584,
        43 => 13983816,
        44 => 1906884,
        45 => 211876,
        46 => 18424,
        47 => 1176,
        48 => 49,
        _ => 1,
    }
}

fn row_50(k: usize) -> (c: u64)
    requires
        k <= 50,
    ensures
        c == binomial(50, k as nat),
{
    proof {
        lemma_binomial_row_50();
    }
    match k {
        0 => 1,
        1 => 50,
        2 => 1225,
        3 => 19600,
        4 => 230300,
        5 => 2118760,
        6 => 15890700,
        7 => 99884400,
        8 => 536878650,
        9 => 2505433700,
        10 => 10272278170,
        11 => 37353738800,
        12 => 121399651100,
        13 => 354860518600,
        14 => 937845656300,
        15 => 2250829575120,
        16 => 4923689695575,
        17 => 9847379391150,
        18 => 18053528883775,
        19 => 30405943383200,
        20 => 47129212243960,
        21 => 67327446062800,
        22 => 88749815264600,
        23 => 108043253365600,
        24 => 121548660036300,
        25 => 126410606437752,
        26 => 121548660036300,
        27 => 108043253365600,
        28 => 88749815264600,
        29 => 67327446062800,
        30 => 47129212243960,
        31 => 30405943383200,
        32 => 18053528883775,
        33 => 9847379391150,
        34 => 4923689695575,
        35 => 2250829575120,
        36 => 937845656300,
        37 => 354860518600,
        38 => 121399651100,
        39 => 37353738800,
        40 => 10272278170,
        41 => 2505433700,
        42 => 536878650,
        43 => 99884400,
        44 => 15890700,
        45 => 2118760,
        46 => 230300,
        47 => 19600,
        48 => 1225,
        49 => 50,
        _ => 1,
    }
}

fn row_51(k: usize) -> (c: u64)
    requires
        k <= 51,
    ensures
        c == binomial(51, k as nat),
{
    proof {
        lemma_binomial_row_51();
    }
    match k {
        0 => 1,
        1 => 51,
        2 => 1275,
        3 => 20825,
        4 => 249900,
        5 => 2349060,
        6 => 18009460,
        7 => 115775100,
        8 => 636763050,
        9 => 3042312350,
        10 => 12777711870,
        11 => 47626016970,
        12 => 158753389900,
        13 => 476260169700,
        14 => 1292706174900,
        15 => 3188675231420,
        16 => 7174519270695,
        17 => 14771069086725,
        18 => 27900908274925,
        19 => 48459472266975,
        20 => 77535155627160,
        21 => 114456658306760,
        22 => 156077261327400,
        23 => 196793068630200,
        24 => 229591913401900,
        25 => 247959266474052,
        26 => 247959266474052,
        27 => 229591913401900,
        28 => 196793068630200,
        29 => 156077261327400,
        30 => 114456658306760,
        31 => 77535155627160,
        32 => 48459472266975,
        33 => 27900908274925,
        34 => 14771069086725,
        35 => 7174519270695,
        36 => 3188675231420,
        37 => 1292706174900,
        38 => 476260169700,
        39 => 158753389900,
        40 => 47626016970,
        41 => 12777711870,
        42 => 3042312350,
        43 => 636763050,
        44 => 115775100,
        45 => 18009460,
        46 => 2349060,
        47 => 249900,
        48 => 20825,
        49 => 1275,
        50 => 51,
        _ => 1,
    }
}

fn row_52(k: usize) -> (c: u64)
    requires
        k <= 52,
    ensures
        c == binomial(52, k as nat),
{
    proof {
        lemma_binomial_row_52();
    }
    match k {
        0 => 1,
        1 => 52,
        2 => 1326,
        3 => 22100,
        4 => 270725,
        5 => 2598960,
        6 => 20358520,
        7 => 133784560,
        8 => 752538150,
        9 => 3679075400,
        10 => 15820024220,
        11 => 60403728840,
        12 => 206379406870,
        13 => 635013559600,
        14 => 1768966344600,
        15 => 4481381406320,
        16 => 10363194502115,
        17 => 21945588357420,
        18 => 42671977361650,
        19 => 76360380541900,
        20 => 125994627894135,
        21 => 191991813933920,
        22 => 270533919634160,
        23 => 352870329957600,
        24 => 426384982032100,
        25 => 477551179875952,
        26 => 495918532948104,
        27 => 477551179875952,
        28 => 426384982032100,
        29 => 352870329957600,
        30 => 270533919634160,
        31 => 191991813933920,
        32 => 125994627894135,
        33 => 76360380541900,
        34 => 42671977361650,
        35 => 21945588357420,
        36 => 10363194502115,
        37 => 4481381406320,
        38 => 1768966344600,
        39 => 635013559600,
        40 => 206379406870,
        41 => 60403728840,
        42 => 15820024220,
        43 => 3679075400,
        44 => 752538150,
        45 => 133784560,
        46 => 20358520,
        47 => 2598960,
        48 => 270725,
        49 => 22100,
        50 => 1326,
        51 => 52,
        _ => 1,
    }
}

fn row_53(k: usize) -> (c: u64)
    requires
        k <= 53,
    ensures
        c == binomial(53, k as nat),
{
    proof {
        lemma_binomial_row_53();
    }
    match k {
        0 => 1,
        1 => 53,
        2 => 1378,
        3 => 23426,
        4 => 292825,
        5 => 2869685,
        6 => 22957480,
        7 => 154143080,
        8 => 886322710,
        9 => 4431613550,
        10 => 19499099620,
        11 => 76223753060,
        12 => 266783135710,
        13 => 841392966470,
        14 => 2403979904200,
        15 => 6250347750920,
        16 => 14844575908435,
        17 => 32308782859535,
        18 => 64617565719070,
        19 => 119032357903550,
        20 => 202355008436035,
        21 => 317986441828055,
        22 => 462525733568080,
        23 => 623404249591760,
        24 => 779255311989700,
        25 => 903936161908052,
        26 => 973469712824056,
        27 => 973469712824056,
        28 => 903936161908052,
        29 => 779255311989700,
        30 => 623404249591760,
        31 => 462525733568080,
        32 => 317986441828055,
        33 => 202355008436035,
        34 => 119032357903550,
        35 => 64617565719070,
        36 => 32308782859535,
        37 => 14844575908435,
        38 => 6250347750920,
        39 => 2403979904200,
        40 => 841392966470,
        41 => 266783135710,
        42 => 76223753060,
        43 => 19499099620,
        44 => 4431613550,
        45 => 886322710,
        46 => 154143080,
        47 => 22957480,
        48 => 2869685,
        49 => 292825,
        50 => 23426,
        51 => 1378,
        52 => 53,
        _ => 1,
    }
}

fn row_54(k: usize) -> (c: u64)
    requires
        k <= 54,
    ensures
        c == binomial(54, k as nat),
{
    proof {
        lemma_binomial_row_54();
    }
    match k {
        0 => 1,
        1 => 54,
        2 => 1431,
        3 => 24804,
        4 => 316251,
        5 => 3162510,
        6 => 25827165,
        7 => 177100560,
        8 => 1040465790,
        9 => 5317936260,
        10 => 23930713170,
        11 => 95722852680,
        12 => 343006888770,
        13 => 1108176102180,
        14 => 3245372870670,
        15 => 8654327655120,
        16 => 21094923659355,
        17 => 47153358767970,
        18 => 96926348578605,
        19 => 183649923622620,
        20 => 321387366339585,
        21 => 520341450264090,
        22 => 780512175396135,
        23 => 1085929983159840,
        24 => 1402659561581460,
        25 => 1683191473897752,
        26 => 1877405874732108,
        27 => 1946939425648112,
        28 => 1877405874732108,
        29 => 1683191473897752,
        30 => 1402659561581460,
        31 => 1085929983159840,
        32 => 780512175396135,
        33 => 520341450264090,
        34 => 321387366339585,
        35 => 183649923622620,
        36 => 96926348578605,
        37 => 47153358767970,
        38 => 21094923659355,
        39 => 8654327655120,
        40 => 3245372870670,
        41 => 1108176102180,
        42 => 343006888770,
        43 => 95722852680,
        44 => 23930713170,
        45 => 5317936260,
        46 => 1040465790,
        47 => 177100560,
        48 => 25827165,
        49 => 3162510,
        50 => 316251,
        51 => 24804,
        52 => 1431,
        53 => 54,
        _ => 1,
    }
}

fn row_55(k: usize) -> (c: u64)
    requires
        k <= 55,
    ensures
        c == binomial(55, k as nat),
{
    proof {
        lemma_binomial_row_55();
    }
    match k {
        0 => 1,
        1 => 55,
        2 => 1485,
        3 => 26235,
        4 => 341055,
        5 => 3478761,
        6 => 28989675,
        7 => 202927725,
        8 => 1217566350,
        9 => 6358402050,
        10 => 29248649430,
        11 => 119653565850,
        12 => 438729741450,
        13 => 1451182990950,
        14 => 4353548972850,
        15 => 11899700525790,
        16 => 29749251314475,
        17 => 68248282427325,
        18 => 144079707346575,
        19 => 280576272201225,
        20 => 505037289962205,
        21 => 841728816603675,
        22 => 1300853625660225,
        23 => 1866442158555975,
        24 => 2488589544741300,
        25 => 3085851035479212,
        26 => 3560597348629860,
        27 => 3824345300380220,
        28 => 3824345300380220,
        29 => 3560597348629860,
        30 => 3085851035479212,
        31 => 2488589544741300,
        32 => 1866442158555975,
        33 => 1300853625660225,
        34 => 841728816603675,
        35 => 505037289962205,
        36 => 280576272201225,
        37 => 144079707346575,
        38 => 68248282427325,
        39 => 29749251314475,
        40 => 11899700525790,
        41 => 4353548972850,
        42 => 1451182990950,
        43 => 438729741450,
        44 => 119653565850,
        45 => 29248649430,
        46 => 6358402050,
        47 => 1217566350,
        48 => 202927725,
        49 => 28989675,
        50 => 3478761,
        51 => 341055,
        52 => 26235,
        53 => 1485,
        54 => 55,
        _ => 1,
    }
}

fn row_56(k: usize) -> (c: u64)
    requires
        k <= 56,
    ensures
        c == binomial(56, k as nat),
{
    proof {
        lemma_binomial_row_56();
    }
    match k {
        0 => 1,
        1 => 56,
        2 => 1540,
        3 => 27720,
        4 => 367290,
        5 => 3819816,
        6 => 32468436,
        7 => 231917400,
        8 => 1420494075,
        9 => 7575968400,
        10 => 35607051480,
        11 => 148902215280,
        12 => 558383307300,
        13 => 1889912732400,
        14 => 5804731963800,
        15 => 16253249498640,
        16 => 41648951840265,
        17 => 97997533741800,
        18 => 212327989773900,
        19 => 424655979547800,
        20 => 785613562163430,
        21 => 1346766106565880,
        22 => 2142582442263900,
        23 => 3167295784216200,
        24 => 4355031703297275,
        25 => 5574440580220512,
        26 => 6646448384109072,
        27 => 7384942649010080,
        28 => 7648690600760440,
        29 => 7384942649010080,
        30 => 6646448384109072,
        31 => 5574440580220512,
        32 => 4355031703297275,
        33 => 3167295784216200,
        34 => 2142582442263900,
        35 => 1346766106565880,
        36 => 785613562163430,
        37 => 424655979547800,
        38 => 212327989773900,
        39 => 97997533741800,
        40 => 41648951840265,
        41 => 16253249498640,
        42 => 5804731963800,
        43 => 1889912732400,
        44 => 558383307300,
        45 => 148902215280,
        46 => 35607051480,
        47 => 7575968400,
        48 => 1420494075,
        49 => 231917400,
        50 => 32468436,
        51 => 3819816,
        52 => 367290,
        53 => 27720,
        54 => 1540,
        55 => 56,
        _ => 1,
    }
}

fn row_57(k: usize) -> (c: u64)
    requires
        k <= 57,
    ensures
        c == binomial(57, k as nat),
{
    proof {
        lemma_binomial_row_57();
    }
    match k {
        0 => 1,
        1 => 57,
        2 => 1596,
        3 => 29260,
        4 => 395010,
        5 => 4187106,
        6 => 36288252,
        7 => 264385836,
        8 => 1652411475,
        9 => 8996462475,
        10 => 43183019880,
        11 => 184509266760,
        12 => 707285522580,
        13 => 2448296039700,
        14 => 7694644696200,
        15 => 22057981462440,
        16 => 57902201338905,
        17 => 139646485582065,
        18 => 310325523515700,
        19 => 636983969321700,
        20 => 1210269541711230,
        21 => 2132379668729310,
        22 => 3489348548829780,
        23 => 5309878226480100,
        24 => 7522327487513475,
        25 => 9929472283517787,
        26 => 12220888964329584,
        27 => 14031391033119152,
        28 => 15033633249770520,
        29 => 15033633249770520,
        30 => 14031391033119152,
        31 => 12220888964329584,
        32 => 9929472283517787,
        33 => 7522327487513475,
        34 => 5309878226480100,
        35 => 3489348548829780,
        36 => 2132379668729310,
        37 => 1210269541711230,
        38 => 636983969321700,
        39 => 310325523515700,
        40 => 139646485582065,
        41 => 57902201338905,
        42 => 22057981462440,
        43 => 7694644696200,
        44 => 2448296039700,
        45 => 707285522580,
        46 => 184509266760,
        47 => 43183019880,
        48 => 8996462475,
        49 => 1652411475,
        50 => 264385836,
        51 => 36288252,
        52 => 4187106,
        53 => 395010,
        54 => 29260,
        55 => 1596,
        56 => 57,
        _ => 1,
    }
}

fn row_58(k: usize) -> (c: u64)
    requires
        k <= 58,
    ensures
        c == binomial(58, k as nat),
{
    proof {
        lemma_binomial_row_58();
    }
    match k {
        0 => 1,
        1 => 58,
        2 => 1653,
        3 => 30856,
        4 => 424270,
        5 => 4582116,
        6 => 40475358,
        7 => 300674088,
        8 => 1916797311,
        9 => 10648873950,
        10 => 52179482355,
        11 => 227692286640,
        12 => 891794789340,
        13 => 3155581562280,
        14 => 10142940735900,
        15 => 29752626158640,
        16 => 79960182801345,
        17 => 197548686920970,
        18 => 449972009097765,
        19 => 947309492837400,
        20 => 1847253511032930,
        21 => 3342649210440540,
        22 => 5621728217559090,
        23 => 8799226775309880,
        24 => 12832205713993575,
        25 => 17451799771031262,
        26 => 22150361247847371,
        27 => 26252279997448736,
        28 => 29065024282889672,
        29 => 30067266499541040,
        30 => 29065024282889672,
        31 => 26252279997448736,
        32 => 22150361247847371,
        33 => 17451799771031262,
        34 => 12832205713993575,
        35 => 8799226775309880,
        36 => 5621728217559090,
        37 => 3342649210440540,
        38 => 1847253511032930,
        39 => 947309492837400,
        40 => 449972009097765,
        41 => 197548686920970,
        42 => 79960182801345,
        43 => 29752626158640,
        44 => 10142940735900,
        45 => 3155581562280,
        46 => 891794789340,
        47 => 227692286640,
        48 => 52179482355,
        49 => 10648873950,
        50 => 1916797311,
        51 => 300674088,
        52 => 40475358,
        53 => 4582116,
        54 => 424270,
        55 => 30856,
        56 => 1653,
        57 => 58,
        _ => 1,
    }
}

fn row_59(k: usize) -> (c: u64)
    requires
        k <= 59,
    ensures
        c == binomial(59, k as nat),
{
    proof {
        lemma_binomial_row_59();
    }
    match k {
        0 => 1,
        1 => 59,
        2 => 1711,
        3 => 32509,
        4 => 455126,
        5 => 5006386,
        6 => 45057474,
        7 => 341149446,
        8 => 2217471399,
        9 => 12565671261,
        10 => 62828356305,
        11 => 279871768995,
        12 => 1119487075980,
        13 => 4047376351620,
        14 => 13298522298180,
        15 => 39895566894540,
        16 => 109712808959985,
        17 => 277508869722315,
        18 => 647520696018735,
        19 => 1397281501935165,
        20 => 2794563003870330,
        21 => 5189902721473470,
        22 => 8964377427999630,
        23 => 14420954992868970,
        24 => 21631432489303455,
        25 => 30284005485024837,
        26 => 39602161018878633,
        27 => 48402641245296107,
        28 => 55317304280338408,
        29 => 59132290782430712,
        30 => 59132290782430712,
        31 => 55317304280338408,
        32 => 48402641245296107,
        33 => 39602161018878633,
        34 => 30284005485024837,
        35 => 21631432489303455,
        36 => 14420954992868970,
        37 => 8964377427999630,
        38 => 5189902721473470,
        39 => 2794563003870330,
        40 => 1397281501935165,
        41 => 647520696018735,
        42 => 277508869722315,
        43 => 109712808959985,
        44 => 39895566894540,
        45 => 13298522298180,
        46 => 4047376351620,
        47 => 1119487075980,
        48 => 279871768995,
        49 => 62828356305,
        50 => 12565671261,
        51 => 2217471399,
        52 => 341149446,
        53 => 45057474,
        54 => 5006386,
        55 => 455126,
        56 => 32509,
        57 => 1711,
        58 => 59,
        _ => 1,
    }
}

fn row_60(k: usize) -> (c: u64)
    requires
        k <= 60,
    ensures
        c == binomial(60, k as nat),
{
    proof {
        lemma_binomial_row_60();
    }
    match k {
        0 => 1,
        1 => 60,
        2 => 1770,
        3 => 34220,
        4 => 487635,
        5 => 5461512,
        6 => 50063860,
        7 => 386206920,
        8 => 2558620845,
        9 => 14783142660,
        10 => 75394027566,
        11 => 342700125300,
        12 => 1399358844975,
        13 => 5166863427600,
        14 => 17345898649800,
        15 => 53194089192720,
        16 => 149608375854525,
        17 => 387221678682300,
        18 => 925029565741050,
        19 => 2044802197953900,
        20 => 4191844505805495,
        21 => 7984465725343800,
        22 => 14154280149473100,
        23 => 23385332420868600,
        24 => 36052387482172425,
        25 => 51915437974328292,
        26 => 69886166503903470,
        27 => 88004802264174740,
        28 => 103719945525634515,
        29 => 114449595062769120,
        30 => 118264581564861424,
        31 => 114449595062769120,
        32 => 103719945525634515,
        33 => 88004802264174740,
        34 => 69886166503903470,
        35 => 51915437974328292,
        36 => 36052387482172425,
        37 => 23385332420868600,
        38 => 14154280149473100,
        39 => 7984465725343800,
        40 => 4191844505805495,
        41 => 2044802197953900,
        42 => 925029565741050,
        43 => 387221678682300,
        44 => 149608375854525,
        45 => 53194089192720,
        46 => 17345898649800,
        47 => 5166863427600,
        48 => 1399358844975,
        49 => 342700125300,
        50 => 75394027566,
        51 => 14783142660,
        52 => 2558620845,
        53 => 386206920,
        54 => 50063860,
        55 => 5461512,
        56 => 487635,
        57 => 34220,
        58 => 1770,
        59 => 60,
        _ => 1,
    }
}

fn row_61(k: usize) -> (c: u64)
    requires
        k <= 61,
    ensures
        c == binomial(61, k as nat),
{
    proof {
        lemma_binomial_row_61();
    }
    match k {
        0 => 1,
        1 => 61,
        2 => 1830,
        3 => 35990,
        4 => 521855,
        5 => 5949147,
        6 => 55525372,
        7 => 436270780,
        8 => 2944827765,
        9 => 17341763505,
        10 => 90177170226,
        11 => 418094152866,
        12 => 1742058970275,
        13 => 6566222272575,
        14 => 22512762077400,
        15 => 70539987842520,
        16 => 202802465047245,
        17 => 536830054536825,
        18 => 1312251244423350,
        19 => 2969831763694950,
        20 => 6236646703759395,
        21 => 12176310231149295,
        22 => 22138745874816900,
        23 => 37539612570341700,
        24 => 59437719903041025,
        25 => 87967825456500717,
        26 => 121801604478231762,
        27 => 157890968768078210,
        28 => 191724747789809255,
        29 => 218169540588403635,
        30 => 232714176627630544,
        31 => 232714176627630544,
        32 => 218169540588403635,
        33 => 191724747789809255,
        34 => 157890968768078210,
        35 => 121801604478231762,
        36 => 87967825456500717,
        37 => 59437719903041025,
        38 => 37539612570341700,
        39 => 22138745874816900,
        40 => 12176310231149295,
        41 => 6236646703759395,
        42 => 2969831763694950,
        43 => 1312251244423350,
        44 => 536830054536825,
        45 => 202802465047245,
        46 => 70539987842520,
        47 => 22512762077400,
        48 => 6566222272575,
        49 => 1742058970275,
        50 => 418094152866,
        51 => 90177170226,
        52 => 17341763505,
        53 => 2944827765,
        54 => 436270780,
        55 => 55525372,
        56 => 5949147,
        57 => 521855,
        58 => 35990,
        59 => 1830,
        60 => 61,
        _ => 1,
    }
}

fn row_62(k: usize) -> (c: u64)
    requires
        k <= 62,
    ensures
        c == binomial(62, k as nat),
{
    proof {
        lemma_binomial_row_62();
    }
    match k {
        0 => 1,
        1 => 62,
        2 => 1891,
        3 => 37820,
        4 => 557845,
        5 => 6471002,
        6 => 61474519,
        7 => 491796152,
        8 => 3381098545,
        9 => 20286591270,
        10 => 107518933731,
        11 => 508271323092,
        12 => 2160153123141,
        13 => 8308281242850,
        14 => 29078984349975,
        15 => 93052749919920,
        16 => 273342452889765,
        17 => 739632519584070,
        18 => 1849081298960175,
        19 => 4282083008118300,
        20 => 9206478467454345,
        21 => 18412956934908690,
        22 => 34315056105966195,
        23 => 59678358445158600,
        24 => 96977332473382725,
        25 => 147405545359541742,
        26 => 209769429934732479,
        27 => 279692573246309972,
        28 => 349615716557887465,
        29 => 409894288378212890,
        30 => 450883717216034179,
        31 => 465428353255261088,
        32 => 450883717216034179,
        33 => 409894288378212890,
        34 => 349615716557887465,
        35 => 279692573246309972,
        36 => 209769429934732479,
        37 => 147405545359541742,
        38 => 96977332473382725,
        39 => 59678358445158600,
        40 => 34315056105966195,
        41 => 18412956934908690,
        42 => 9206478467454345,
        43 => 4282083008118300,
        44 => 1849081298960175,
        45 => 739632519584070,
        46 => 273342452889765,
        47 => 93052749919920,
        48 => 29078984349975,
        49 => 8308281242850,
        50 => 2160153123141,
        51 => 508271323092,
        52 => 107518933731,
        53 => 20286591270,
        54 => 3381098545,
        55 => 491796152,
        56 => 61474519,
        57 => 6471002,
        58 => 557845,
        59 => 37820,
        60 => 1891,
        61 => 62,
        _ => 1,
    }
}

fn row_63(k: usize) -> (c: u64)
    requires
        k <= 63,
    ensures
        c == binomial(63, k as nat),
{
    proof {
        lemma_binomial_row_63();
    }
    match k {
        0 => 1,
        1 => 63,
        2 => 1953,
        3 => 39711,
        4 => 595665,
        5 => 7028847,
        6 => 67945521,
        7 => 553270671,
        8 => 3872894697,
        9 => 23667689815,
        10 => 127805525001,
        11 => 615790256823,
        12 => 2668424446233,
        13 => 10468434365991,
        14 => 37387265592825,
        15 => 122131734269895,
        16 => 366395202809685,
        17 => 1012974972473835,
        18 => 2588713818544245,
        19 => 6131164307078475,
        20 => 13488561475572645,
        21 => 27619435402363035,
        22 => 52728013040874885,
        23 => 93993414551124795,
        24 => 156655690918541325,
        25 => 244382877832924467,
        26 => 357174975294274221,
        27 => 489462003181042451,
        28 => 629308289804197437,
        29 => 759510004936100355,
        30 => 860778005594247069,
        31 => 916312070471295267,
        32 => 916312070471295267,
        33 => 860778005594247069,
        34 => 759510004936100355,
        35 => 629308289804197437,
        36 => 489462003181042451,
        37 => 357174975294274221,
        38 => 244382877832924467,
        39 => 156655690918541325,
        40 => 93993414551124795,
        41 => 52728013040874885,
        42 => 27619435402363035,
        43 => 13488561475572645,
        44 => 6131164307078475,
        45 => 2588713818544245,
        46 => 1012974972473835,
        47 => 366395202809685,
        48 => 122131734269895,
        49 => 37387265592825,
        50 => 10468434365991,
        51 => 2668424446233,
        52 => 615790256823,
        53 => 127805525001,
        54 => 23667689815,
        55 => 3872894697,
        56 => 553270671,
        57 => 67945521,
        58 => 7028847,
        59 => 595665,
        60 => 39711,
        61 => 1953,
        62 => 63,
        _ => 1,
    }
}

fn row_64(k: usize) -> (c: u64)
    requires
        k <= 64,
    ensures
        c == binomial(64, k as nat),
{
    proof {
        lemma_binomial_row_64();
    }
    match k {
        0 => 1,
        1 => 64,
        2 => 2016,
        3 => 41664,
        4 => 635376,
        5 => 7624512,
        6 => 74974368,
        7 => 621216192,
        8 => 4426165368,
        9 => 27540584512,
        10 => 151473214816,
        11 => 743595781824,
        12 => 3284214703056,
        13 => 13136858812224,
        14 => 47855699958816,
        15 => 159518999862720,
        16 => 488526937079580,
        17 => 1379370175283520,
        18 => 3601688791018080,
        19 => 8719878125622720,
        20 => 19619725782651120,
        21 => 41107996877935680,
        22 => 80347448443237920,
        23 => 146721427591999680,
        24 => 250649105469666120,
        25 => 401038568751465792,
        26 => 601557853127198688,
        27 => 846636978475316672,
        28 => 1118770292985239888,
        29 => 1388818294740297792,
        30 => 1620288010530347424,
        31 => 1777090076065542336,
        32 => 1832624140942590534,
        33 => 1777090076065542336,
        34 => 1620288010530347424,
        35 => 1388818294740297792,
        36 => 1118770292985239888,
        37 => 846636978475316672,
        38 => 601557853127198688,
        39 => 401038568751465792,
        40 => 250649105469666120,
        41 => 146721427591999680,
        42 => 80347448443237920,
        43 => 41107996877935680,
        44 => 19619725782651120,
        45 => 8719878125622720,
        46 => 3601688791018080,
        47 => 1379370175283520,
        48 => 488526937079580,
        49 => 159518999862720,
        50 => 47855699958816,
        51 => 13136858812224,
        52 => 3284214703056,
        53 => 743595781824,
        54 => 151473214816,
        55 => 27540584512,
        56 => 4426165368,
        57 => 621216192,
        58 => 74974368,
        59 => 7624512,
        60 => 635376,
        61 => 41664,
        62 => 2016,
        63 => 64,
        _ => 1,
    }
}

/// `C(n, k)`, looked up.
pub fn combination(n: usize, k: usize) -> (c: u64)
    requires
        n <= 64,
        k <= 64,
    ensures
        c == binomial(n as nat, k as nat),
{
    if k > n {
        proof {
            lemma_binomial_zero(n as nat, k as nat);
        }
        0
    } else {
        match n {
            0 => row_0(k),
            1 => row_1(k),
            2 => row_2(k),
            3 => row_3(k),
            4 => row_4(k),
            5 => row_5(k),
            6 => row_6(k),
            7 => row_7(k),
            8 => row_8(k),
            9 => row_9(k),
            10 => row_10(k),
            11 => row_11(k),
            12 => row_12(k),
            13 => row_13(k),
            14 => row_14(k),
            15 => row_15(k),
            16 => row_16(k),
            17 => row_17(k),
            18 => row_18(k),
            19 => row_19(k),
            20 => row_20(k),
            21 => row_21(k),
            22 => row_22(k),
            23 => row_23(k),
            24 => row_24(k),
            25 => row_25(k),
            26 => row_26(k),
            27 => row_27(k),
            28 => row_28(k),
            29 => row_29(k),
            30 => row_30(k),
            31 => row_31(k),
            32 => row_32(k),
            33 => row_33(k),
            34 => row_34(k),
            35 => row_35(k),
            36 => row_36(k),
            37 => row_37(k),
            38 => row_38(k),
            39 => row_39(k),
            40 => row_40(k),
            41 => row_41(k),
            42 => row_42(k),
            43 => row_43(k),
            44 => row_44(k),
            45 => row_45(k),
            46 => row_46(k),
            47 => row_47(k),
            48 => row_48(k),
            49 => row_49(k),
            50 => row_50(k),
            51 => row_51(k),
            52 => row_52(k),
            53 => row_53(k),
            54 => row_54(k),
            55 => row_55(k),
            56 => row_56(k),
            57 => row_57(k),
            58 => row_58(k),
            59 => row_59(k),
            60 => row_60(k),
            61 => row_61(k),
            62 => row_62(k),
            63 => row_63(k),
            _ => row_64(k),
        }
    }
}

/// The widths of the 65 classes, each from the value of `C(64, k)`.
proof fn lemma_code_widths()
    ensures
        code_width(0) == 0,
        code_width(1) == 6,
        code_width(2) == 11,
        code_width(3) == 16,
        code_width(4) == 20,
        code_width(5) == 23,
        code_width(6) == 27,
        code_width(7) == 30,
        code_width(8) == 33,
        code_width(9) == 35,
        code_width(10) == 38,
        code_width(11) == 40,
        code_width(12) == 42,
        code_width(13) == 44,
        code_width(14) == 46,
        code_width(15) == 48,
        code_width(16) == 64,
        code_width(17) == 64,
        code_width(18) == 64,
        code_width(19) == 64,
        code_width(20) == 64,
        code_width(21) == 64,
        code_width(22) == 64,
        code_width(23) == 64,
        code_width(24) == 64,
        code_width(25) == 64,
        code_width(26) == 64,
        code_width(27) == 64,
        code_width(28) == 64,
        code_width(29) == 64,
        code_width(30) == 64,
        code_width(31) == 64,
        code_width(32) == 64,
        code_width(33) == 64,
        code_width(34) == 64,
        code_width(35) == 64,
        code_width(36) == 64,
        code_width(37) == 64,
        code_width(38) == 64,
        code_width(39) == 64,
        code_width(40) == 64,
        code_width(41) == 64,
        code_width(42) == 64,
        code_width(43) == 64,
        code_width(44) == 64,
        code_width(45) == 64,
        code_width(46) == 64,
        code_width(47) == 64,
        code_width(48) == 64,
        code_width(49) == 48,
        code_width(50) == 46,
        code_width(51) == 44,
        code_width(52) == 42,
        code_width(53) == 40,
        code_width(54) == 38,
        code_width(55) == 35,
        code_width(56) == 33,
        code_width(57) == 30,
        code_width(58) == 27,
        code_width(59) == 23,
        code_width(60) == 20,
        code_width(61) == 16,
        code_width(62) == 11,
        code_width(63) == 6,
        code_width(64) == 0,
{
    lemma_binomial_row_64();
    lemma2_to64();
    lemma2_to64_rest();
    lemma_ceil_log2_unique(binomial(64, 0), 0);
    lemma_ceil_log2_unique(binomial(64, 1), 6);
    lemma_ceil_log2_unique(binomial(64, 2), 11);
    lemma_ceil_log2_unique(binomial(64, 3), 16);
    lemma_ceil_log2_unique(binomial(64, 4), 20);
    lemma_ceil_log2_unique(binomial(64, 5), 23);
    lemma_ceil_log2_unique(binomial(64, 6), 27);
    lemma_ceil_log2_unique(binomial(64, 7), 30);
    lemma_ceil_log2_unique(binomial(64, 8), 33);
    lemma_ceil_log2_unique(binomial(64, 9), 35);
    lemma_ceil_log2_unique(binomial(64, 10), 38);
    lemma_ceil_log2_unique(binomial(64, 11), 40);
    lemma_ceil_log2_unique(binomial(64, 12), 42);
    lemma_ceil_log2_unique(binomial(64, 13), 44);
    lemma_ceil_log2_unique(binomial(64, 14), 46);
    lemma_ceil_log2_unique(binomial(64, 15), 48);
    lemma_ceil_log2_above(binomial(64, 16), 48);
    lemma_ceil_log2_above(binomial(64, 17), 48);
    lemma_ceil_log2_above(binomial(64, 18), 48);
    lemma_ceil_log2_above(binomial(64, 19), 48);
    lemma_ceil_log2_above(binomial(64, 20), 48);
    lemma_ceil_log2_above(binomial(64, 21), 48);
    lemma_ceil_log2_above(binomial(64, 22), 48);
    lemma_ceil_log2_above(binomial(64, 23), 48);
    lemma_ceil_log2_above(binomial(64, 24), 48);
    lemma_ceil_log2_above(binomial(64, 25), 48);
    lemma_ceil_log2_above(binomial(64, 26), 48);
    lemma_ceil_log2_above(binomial(64, 27), 48);
    lemma_ceil_log2_above(binomial(64, 28), 48);
    lemma_ceil_log2_above(binomial(64, 29), 48);
    lemma_ceil_log2_above(binomial(64, 30), 48);
    lemma_ceil_log2_above(binomial(64, 31), 48);
    lemma_ceil_log2_above(binomial(64, 32), 48);
    lemma_ceil_log2_above(binomial(64, 33), 48);
    lemma_ceil_log2_above(binomial(64, 34), 48);
    lemma_ceil_log2_above(binomial(64, 35), 48);
    lemma_ceil_log2_above(binomial(64, 36), 48);
    lemma_ceil_log2_above(binomial(64, 37), 48);
    lemma_ceil_log2_above(binomial(64, 38), 48);
    lemma_ceil_log2_above(binomial(64, 39), 48);
    lemma_ceil_log2_above(binomial(64, 40), 48);
    lemma_ceil_log2_above(binomial(64, 41), 48);
    lemma_ceil_log2_above(binomial(64, 42), 48);
    lemma_ceil_log2_above(binomial(64, 43), 48);
    lemma_ceil_log2_above(binomial(64, 44), 48);
    lemma_ceil_log2_above(binomial(64, 45), 48);
    lemma_ceil_log2_above(binomial(64, 46), 48);
    lemma_ceil_log2_above(binomial(64, 47), 48);
    lemma_ceil_log2_above(binomial(64, 48), 48);
    lemma_ceil_log2_unique(binomial(64, 49), 48);
    lemma_ceil_log2_unique(binomial(64, 50), 46);
    lemma_ceil_log2_unique(binomial(64, 51), 44);
    lemma_ceil_log2_unique(binomial(64, 52), 42);
    lemma_ceil_log2_unique(binomial(64, 53), 40);
    lemma_ceil_log2_unique(binomial(64, 54), 38);
    lemma_ceil_log2_unique(binomial(64, 55), 35);
    lemma_ceil_log2_unique(binomial(64, 56), 33);
    lemma_ceil_log2_unique(binomial(64, 57), 30);
    lemma_ceil_log2_unique(binomial(64, 58), 27);
    lemma_ceil_log2_unique(binomial(64, 59), 23);
    lemma_ceil_log2_unique(binomial(64, 60), 20);
    lemma_ceil_log2_unique(binomial(64, 61), 16);
    lemma_ceil_log2_unique(binomial(64, 62), 11);
    lemma_ceil_log2_unique(binomial(64, 63), 6);
    lemma_ceil_log2_unique(binomial(64, 64), 0);
}

/// The stored width of the code of a block with `k` ones, looked up.
pub fn code_size(k: usize) -> (w: usize)
    requires
        k <= 64,
    ensures
        w == code_width(k as nat),
        w <= MAX_CODE_BITS || w == RAW_BITS,
{
    proof {
        lemma_code_widths();
    }
    match k {
        0 => 0,
        1 => 6,
        2 => 11,
        3 => 16,
        4 => 20,
        5 => 23,
        6 => 27,
        7 => 30,
        8 => 33,
        9 => 35,
        10 => 38,
        11 => 40,
        12 => 42,
        13 => 44,
        14 => 46,
        15 => 48,
        16 => 64,
        17 => 64,
        18 => 64,
        19 => 64,
        20 => 64,
        21 => 64,
        22 => 64,
        23 => 64,
        24 => 64,
        25 => 64,
        26 => 64,
        27 => 64,
        28 => 64,
        29 => 64,
        30 => 64,
        31 => 64,
        32 => 64,
        33 => 64,
        34 => 64,
        35 => 64,
        36 => 64,
        37 => 64,
        38 => 64,
        39 => 64,
        40 => 64,
        41 => 64,
        42 => 64,
        43 => 64,
        44 => 64,
        45 => 64,
        46 => 64,
        47 => 64,
        48 => 64,
        49 => 48,
        50 => 46,
        51 => 44,
        52 => 42,
        53 => 40,
        54 => 38,
        55 => 35,
        56 => 33,
        57 => 30,
        58 => 27,
        59 => 23,
        60 => 20,
        61 => 16,
        62 => 11,
        63 => 6,
        _ => 0,
    }
}

} // verus!
