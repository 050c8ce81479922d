//! The bits of a 64-bit word: what each bitwise operation does to them, and
//! how many of them are set.

use vstd::arithmetic::power2::pow2;
use vstd::bits::{lemma_u64_pow2_no_overflow, lemma_u64_shl_is_mul};
use vstd::prelude::*;
use vstd::std_specs::bits::{axiom_u64_trailing_zeros, u64_trailing_zeros};

verus! {

/// Bit `j` of `w`, counted from the least significant bit (`0 <= j < 64`).
pub open spec fn bit(w: u64, j: int) -> bool {
    (w >> (j as u64)) & 1 == 1
}

/// The number of set bits of `w` below index `j`.
pub open spec fn ones_below(w: u64, j: int) -> nat
    decreases j,
{
    if j <= 0 {
        0
    } else {
        ones_below(w, j - 1) + if bit(w, j - 1) {
            1nat
        } else {
            0nat
        }
    }
}

/// The number of set bits of `w` at index `j` and above.
pub open spec fn ones_from(w: u64, j: int) -> nat
    decreases 64 - j,
{
    if j >= 64 {
        0
    } else {
        ones_from(w, j + 1) + if bit(w, j) {
            1nat
        } else {
            0nat
        }
    }
}

/// The number of set bits of `w`.
pub open spec fn popcount(w: u64) -> nat {
    ones_below(w, 64)
}

/// Two words with the same bits are the same word.
pub proof fn lemma_bits_equal(a: u64, b: u64)
    requires
        forall|j: int| 0 <= j < 64 ==> bit(a, j) == bit(b, j),
    ensures
        a == b,
{
    let x = a ^ b;
    axiom_u64_trailing_zeros(x);
    if x != 0 {
        let t = u64_trailing_zeros(x) as u64;
        assert(((a ^ b) >> t) & 1 == 1 ==> ((a >> t) & 1 == 1) != ((b >> t) & 1 == 1))
            by (bit_vector);
        assert(bit(a, t as int) == bit(b, t as int));
    }
    assert(a ^ b == 0 ==> a == b) by (bit_vector);
}

/// The bits of `0` and of `!0`.
pub proof fn lemma_bit_const()
    ensures
        forall|j: int| 0 <= j < 64 ==> !#[trigger] bit(0, j),
        forall|j: int| 0 <= j < 64 ==> #[trigger] bit(0xffff_ffff_ffff_ffff, j),
{
    assert forall|j: int|
        #![trigger bit(0, j)]
        #![trigger bit(0xffff_ffff_ffff_ffff, j)]
        0 <= j < 64 implies !bit(0, j) && bit(0xffff_ffff_ffff_ffff, j) by {
        let jj = j as u64;
        assert((0u64 >> jj) & 1 == 0 && (0xffff_ffff_ffff_ffffu64 >> jj) & 1 == 1)
            by (bit_vector)
            requires
                jj < 64,
        ;
    }
}

/// The bits of `a | b`, `a & b` and `!a`.
pub proof fn lemma_bit_logic(a: u64, b: u64)
    ensures
        forall|j: int| 0 <= j < 64 ==> #[trigger] bit(a | b, j) == (bit(a, j) || bit(b, j)),
        forall|j: int| 0 <= j < 64 ==> #[trigger] bit(a & b, j) == (bit(a, j) && bit(b, j)),
        forall|j: int| 0 <= j < 64 ==> #[trigger] bit(!a, j) == !bit(a, j),
{
    assert forall|j: int|
        #![trigger bit(a | b, j)]
        #![trigger bit(a & b, j)]
        #![trigger bit(!a, j)]
        0 <= j < 64 implies bit(a | b, j) == (bit(a, j) || bit(b, j)) && bit(a & b, j) == (bit(a, j)
        && bit(b, j)) && bit(!a, j) == !bit(a, j) by {
        let jj = j as u64;
        assert((((a | b) >> jj) & 1 == 1) == ((a >> jj) & 1 == 1 || (b >> jj) & 1 == 1) && (((a
            & b) >> jj) & 1 == 1) == ((a >> jj) & 1 == 1 && (b >> jj) & 1 == 1) && (((!a) >> jj) & 1
            == 1) == !((a >> jj) & 1 == 1)) by (bit_vector)
            requires
                jj < 64,
        ;
    }
}

/// The bits of `1 << s`.
pub proof fn lemma_bit_single(s: u64)
    requires
        s < 64,
    ensures
        forall|j: int| 0 <= j < 64 ==> #[trigger] bit(1u64 << s, j) == (j == s),
{
    assert forall|j: int| 0 <= j < 64 implies #[trigger] bit(1u64 << s, j) == (j == s) by {
        let jj = j as u64;
        assert((((1u64 << s) >> jj) & 1 == 1) == (jj == s)) by (bit_vector)
            requires
                jj < 64,
                s < 64,
        ;
    }
}

/// The bits of `a << s`.
pub proof fn lemma_bit_shl(a: u64, s: u64)
    requires
        s < 64,
    ensures
        forall|j: int| 0 <= j < 64 ==> #[trigger] bit(a << s, j) == (j >= s && bit(a, j - s)),
{
    assert forall|j: int| 0 <= j < 64 implies #[trigger] bit(a << s, j) == (j >= s && bit(
        a,
        j - s,
    )) by {
        let jj = j as u64;
        if j >= s {
            let d = (j - s) as u64;
            assert((((a << s) >> jj) & 1 == 1) == ((a >> d) & 1 == 1)) by (bit_vector)
                requires
                    jj < 64,
                    s <= jj,
                    d == jj - s,
            ;
        } else {
            assert(((a << s) >> jj) & 1 == 0) by (bit_vector)
                requires
                    jj < s,
                    s < 64,
            ;
        }
    }
}

/// The bits of `a >> s`.
pub proof fn lemma_bit_shr(a: u64, s: u64)
    requires
        s < 64,
    ensures
        forall|j: int| 0 <= j < 64 ==> #[trigger] bit(a >> s, j) == (j + s < 64 && bit(a, j + s)),
{
    assert forall|j: int| 0 <= j < 64 implies #[trigger] bit(a >> s, j) == (j + s < 64 && bit(
        a,
        j + s,
    )) by {
        let jj = j as u64;
        if j + s < 64 {
            let u = (j + s) as u64;
            assert((((a >> s) >> jj) & 1 == 1) == ((a >> u) & 1 == 1)) by (bit_vector)
                requires
                    jj < 64,
                    s < 64,
                    u == jj + s,
                    u < 64,
            ;
        } else {
            assert(((a >> s) >> jj) & 1 == 0) by (bit_vector)
                requires
                    jj < 64,
                    s < 64,
                    jj + s >= 64,
            ;
        }
    }
}

/// A value below `2^w` has no bit at index `w` or above.
pub proof fn lemma_high_bits_clear(v: u64, w: int)
    requires
        0 <= w <= 64,
        w < 64 ==> v < pow2(w as nat),
    ensures
        forall|t: int| w <= t < 64 ==> !#[trigger] bit(v, t),
{
    if w < 64 {
        let ww = w as u64;
        lemma_u64_pow2_no_overflow(w as nat);
        lemma_u64_shl_is_mul(1, ww);
        assert forall|t: int| w <= t < 64 implies !#[trigger] bit(v, t) by {
            let tt = t as u64;
            assert((v >> tt) & 1 == 0) by (bit_vector)
                requires
                    v < (1u64 << ww),
                    ww <= tt,
                    tt < 64,
            ;
        }
    }
}

/// The word without set bits.
pub proof fn lemma_popcount_zero()
    ensures
        popcount(0) == 0,
{
    lemma_bit_const();
    lemma_ones_below_clear(0, 64);
}

/// Where no bit below `j` is set, none is counted.
pub proof fn lemma_ones_below_clear(w: u64, j: int)
    requires
        0 <= j <= 64,
        forall|i: int| 0 <= i < j ==> !bit(w, i),
    ensures
        ones_below(w, j) == 0,
    decreases j,
{
    if j > 0 {
        lemma_ones_below_clear(w, j - 1);
    }
}

/// Setting a bit that was unset adds one to the count of every range that
/// holds it.
pub proof fn lemma_ones_with_bit(w: u64, r: u64, j: int, n: int)
    requires
        0 <= j < 64,
        0 <= n <= 64,
        !bit(w, j),
        forall|i: int| 0 <= i < 64 ==> bit(r, i) == (bit(w, i) || i == j),
    ensures
        ones_below(r, n) == ones_below(w, n) + if j < n {
            1nat
        } else {
            0nat
        },
    decreases n,
{
    if n > 0 {
        lemma_ones_with_bit(w, r, j, n - 1);
    }
}

/// Between `ones_below` and `ones_from` every set bit is counted once.
pub proof fn lemma_ones_split(w: u64, j: int)
    requires
        0 <= j <= 64,
    ensures
        ones_below(w, j) + ones_from(w, j) == popcount(w),
        ones_below(w, j) <= j,
        ones_from(w, j) <= 64 - j,
    decreases 64 - j,
{
    lemma_ones_below_bound(w, j);
    if j < 64 {
        lemma_ones_split(w, j + 1);
    }
}

/// Below index `j` there are at most `j` set bits.
pub proof fn lemma_ones_below_bound(w: u64, j: int)
    requires
        0 <= j,
    ensures
        ones_below(w, j) <= j,
    decreases j,
{
    if j > 0 {
        lemma_ones_below_bound(w, j - 1);
    }
}

/// `ones_below(_, j)` depends on the bits below `j` only.
pub proof fn lemma_ones_below_agree(a: u64, b: u64, j: int)
    requires
        0 <= j <= 64,
        forall|i: int| 0 <= i < j ==> bit(a, i) == bit(b, i),
    ensures
        ones_below(a, j) == ones_below(b, j),
    decreases j,
{
    if j > 0 {
        lemma_ones_below_agree(a, b, j - 1);
    }
}

/// Whether bit `j` of `w` is set.
pub fn test_bit(w: u64, j: usize) -> (b: bool)
    requires
        j < 64,
    ensures
        b == bit(w, j as int),
{
    (w >> (j as u64)) & 1 == 1
}

/// `w` with bit `j` set.
pub fn with_bit(w: u64, j: usize) -> (r: u64)
    requires
        j < 64,
    ensures
        forall|i: int| 0 <= i < 64 ==> #[trigger] bit(r, i) == (bit(w, i) || i == j),
{
    let r = w | (1u64 << (j as u64));
    proof {
        lemma_bit_logic(w, 1u64 << (j as u64));
        lemma_bit_single(j as u64);
    }
    r
}

/// The number of set bits among the `p` most significant bits of `w`.
pub fn count_ones_top(w: u64, p: usize) -> (r: usize)
    requires
        p <= 64,
    ensures
        r == ones_from(w, 64 - p),
        r <= p,
{
    let mut r: usize = 0;
    let mut j: usize = 64;
    while j > 64 - p
        invariant
            p <= 64,
            64 - p <= j <= 64,
            r == ones_from(w, j as int),
            r <= 64 - j,
        decreases j,
    {
        j = j - 1;
        if test_bit(w, j) {
            r = r + 1;
        }
    }
    r
}

/// The number of set bits of `w`.
pub fn count_ones(w: u64) -> (r: usize)
    ensures
        r == popcount(w),
        r <= 64,
{
    proof {
        lemma_ones_split(w, 0);
    }
    count_ones_top(w, 64)
}

} // verus!
