//! The enumerative code of a 64-bit block: a block with `k` set bits is
//! stored as its class `k` and its rank among the blocks of that class, which
//! takes `ceil(log2(C(64, k)))` bits. Classes whose rank would take more than
//! `MAX_CODE_BITS` bits are stored as the raw block.
//!
//! In this module bit indices count from the least significant bit, and a
//! position `p` counts from the most significant one: position `p` is bit
//! `63 - p`.

use crate::bits::{
    bit, count_ones, count_ones_top, lemma_bit_const, lemma_bit_logic, lemma_bit_shr,
    lemma_bit_single, lemma_bits_equal, lemma_ones_below_agree, lemma_ones_below_bound,
    lemma_ones_split, ones_below, ones_from, popcount, test_bit, with_bit,
};
use crate::tables::{
    binomial, code_size, code_width, combination, lemma_binomial_fits, lemma_code_fits, RAW_BITS,
};
use vstd::arithmetic::power2::pow2;
use vstd::prelude::*;

verus! {

/// The rank of the low `j` bits of `w` among the `j`-bit patterns with as
/// many set bits, in numeric order: each set bit `i` adds `C(i, r)`, the
/// number of patterns that have their `r`-th set bit below `i`, where `r`
/// counts the set bits up to and including `i`.
pub open spec fn code_below(w: u64, j: int) -> nat
    decreases j,
{
    if j <= 0 {
        0
    } else {
        code_below(w, j - 1) + if bit(w, j - 1) {
            binomial((j - 1) as nat, ones_below(w, j))
        } else {
            0
        }
    }
}

/// The rank of `w` among the 64-bit blocks of its class.
pub open spec fn enum_code(w: u64) -> nat {
    code_below(w, 64)
}

/// What is stored for `w` beside its class: its rank, or `w` itself where
/// its class is stored raw.
pub open spec fn stored_code(w: u64) -> nat {
    if code_width(popcount(w)) == RAW_BITS {
        w as nat
    } else {
        enum_code(w)
    }
}

/// The `j`-bit pattern with `r` set bits that has rank `c` among them.
pub open spec fn pattern(j: int, r: nat, c: nat) -> u64
    decreases j,
{
    if j <= 0 {
        0
    } else {
        let t = binomial((j - 1) as nat, r);
        if c >= t && r > 0 {
            pattern(j - 1, (r - 1) as nat, (c - t) as nat) | (1u64 << ((j - 1) as u64))
        } else {
            pattern(j - 1, r, c)
        }
    }
}

/// `c` is a code that can be stored for class `k`.
pub open spec fn valid_code(k: nat, c: nat) -> bool {
    &&& k <= 64
    &&& c <= u64::MAX
    &&& if code_width(k) == RAW_BITS {
        popcount(c as u64) == k
    } else {
        c < binomial(64, k)
    }
}

/// The block that is stored as class `k` and code `c`.
pub open spec fn decoded(k: nat, c: nat) -> u64 {
    if code_width(k) == RAW_BITS {
        c as u64
    } else {
        pattern(64, k, c)
    }
}

/// Every bit of `x` is a bit of `hi` or of `lo`.
spec fn joins(x: u64, hi: u64, lo: u64) -> bool {
    forall|i: int| 0 <= i < 64 ==> #[trigger] bit(x, i) == (bit(hi, i) || bit(lo, i))
}

/// `code_below(_, j)` depends on the bits below `j` only.
pub proof fn lemma_code_below_agree(a: u64, b: u64, j: int)
    requires
        0 <= j <= 64,
        forall|i: int| 0 <= i < j ==> bit(a, i) == bit(b, i),
    ensures
        code_below(a, j) == code_below(b, j),
    decreases j,
{
    if j > 0 {
        lemma_code_below_agree(a, b, j - 1);
        lemma_ones_below_agree(a, b, j);
    }
}

/// Without set bits the rank is zero.
pub proof fn lemma_code_below_empty(w: u64, j: int)
    requires
        0 <= j <= 64,
        ones_below(w, j) == 0,
    ensures
        code_below(w, j) == 0,
    decreases j,
{
    if j > 0 {
        lemma_code_below_empty(w, j - 1);
    }
}

/// The rank of a `j`-bit pattern with `r` set bits is below `C(j, r)`.
pub proof fn lemma_code_below_bound(w: u64, j: int)
    requires
        0 <= j <= 64,
    ensures
        code_below(w, j) < binomial(j as nat, ones_below(w, j)),
    decreases j,
{
    if j > 0 {
        lemma_code_below_bound(w, j - 1);
        let r = ones_below(w, j);
        if bit(w, j - 1) {
            assert(binomial(j as nat, r) == binomial((j - 1) as nat, (r - 1) as nat) + binomial(
                (j - 1) as nat,
                r,
            ));
        } else if r > 0 {
            assert(binomial(j as nat, r) == binomial((j - 1) as nat, (r - 1) as nat) + binomial(
                (j - 1) as nat,
                r,
            ));
        }
    }
}

/// One step of unranking: a code below `C(j, r)` either is at least
/// `C(j - 1, r)`, and what is left of it is below `C(j - 1, r - 1)`, or it is
/// below `C(j - 1, r)`.
pub proof fn lemma_pattern_step(j: int, r: nat, c: nat)
    requires
        1 <= j,
        c < binomial(j as nat, r),
    ensures
        c >= binomial((j - 1) as nat, r) ==> r > 0 && c - binomial((j - 1) as nat, r) < binomial(
            (j - 1) as nat,
            (r - 1) as nat,
        ),
{
}

/// The pattern with `r` set bits and rank `c` has `r` set bits and rank `c`,
/// and no bit from `j` upwards.
pub proof fn lemma_pattern(j: int, r: nat, c: nat)
    requires
        0 <= j <= 64,
        c < binomial(j as nat, r),
    ensures
        forall|i: int| j <= i < 64 ==> !#[trigger] bit(pattern(j, r, c), i),
        ones_below(pattern(j, r, c), j) == r,
        code_below(pattern(j, r, c), j) == c,
    decreases j,
{
    let x = pattern(j, r, c);
    if j == 0 {
        lemma_bit_const();
    } else {
        let t = binomial((j - 1) as nat, r);
        lemma_pattern_step(j, r, c);
        if c >= t && r > 0 {
            let y = pattern(j - 1, (r - 1) as nat, (c - t) as nat);
            let b = 1u64 << ((j - 1) as u64);
            lemma_pattern(j - 1, (r - 1) as nat, (c - t) as nat);
            lemma_bit_logic(y, b);
            lemma_bit_single((j - 1) as u64);
            assert(x == y | b);
            assert(bit(x, j - 1));
            lemma_ones_below_agree(x, y, j - 1);
            lemma_code_below_agree(x, y, j - 1);
        } else {
            lemma_pattern(j - 1, r, c);
            assert(x == pattern(j - 1, r, c));
            assert(!bit(x, j - 1));
        }
    }
}

/// Unranking the rank of the low `j` bits of `w` gives them back.
pub proof fn lemma_pattern_of_code(w: u64, j: int)
    requires
        0 <= j <= 64,
    ensures
        forall|i: int|
            0 <= i < 64 ==> #[trigger] bit(pattern(j, ones_below(w, j), code_below(w, j)), i) == (i
                < j && bit(w, i)),
    decreases j,
{
    let r = ones_below(w, j);
    let c = code_below(w, j);
    let x = pattern(j, r, c);
    if j == 0 {
        lemma_bit_const();
    } else {
        let t = binomial((j - 1) as nat, r);
        lemma_pattern_of_code(w, j - 1);
        lemma_code_below_bound(w, j - 1);
        let y = pattern(j - 1, ones_below(w, j - 1), code_below(w, j - 1));
        if bit(w, j - 1) {
            let b = 1u64 << ((j - 1) as u64);
            lemma_bit_logic(y, b);
            lemma_bit_single((j - 1) as u64);
            assert(x == y | b);
        } else {
            assert(x == y);
        }
    }
}

/// Decoding what was stored for a block gives the block.
pub proof fn lemma_decode_encode(w: u64)
    ensures
        valid_code(popcount(w), stored_code(w)),
        decoded(popcount(w), stored_code(w)) == w,
{
    lemma_ones_below_bound(w, 64);
    lemma_code_below_bound(w, 64);
    lemma_binomial_fits(64, popcount(w));
    if code_width(popcount(w)) != RAW_BITS {
        lemma_pattern_of_code(w, 64);
        lemma_bits_equal(decoded(popcount(w), stored_code(w)), w);
    }
}

/// What is stored for a decoded block is the class and the code that it was
/// decoded from.
pub proof fn lemma_encode_decode(k: nat, c: nat)
    requires
        valid_code(k, c),
    ensures
        popcount(decoded(k, c)) == k,
        stored_code(decoded(k, c)) == c,
{
    if code_width(k) != RAW_BITS {
        lemma_pattern(64, k, c);
    }
}

/// A block that is not stored raw has a code below `C(64, k)`, which fits
/// in the width of its class.
pub proof fn lemma_code_bound(w: u64)
    ensures
        code_width(popcount(w)) != RAW_BITS ==> enum_code(w) < binomial(64, popcount(w))
            && enum_code(w) < pow2(code_width(popcount(w))),
        stored_code(w) <= u64::MAX,
{
    lemma_code_below_bound(w, 64);
    lemma_binomial_fits(64, popcount(w));
    lemma_code_fits(popcount(w));
}

/// Among the blocks of one class a greater block has a greater rank.
pub proof fn lemma_code_monotone(a: u64, b: u64)
    requires
        popcount(a) == popcount(b),
        a < b,
    ensures
        enum_code(a) < enum_code(b),
{
    lemma_code_order(a, b, 64);
}

/// Where two blocks of one class agree from bit `j` upwards and differ, the
/// one with the greater low part has the greater rank.
proof fn lemma_code_order(a: u64, b: u64, j: int)
    requires
        0 <= j <= 64,
        forall|i: int| j <= i < 64 ==> bit(a, i) == bit(b, i),
        ones_below(a, j) == ones_below(b, j),
        a < b,
    ensures
        code_below(a, j) < code_below(b, j),
    decreases j,
{
    if j == 0 {
        lemma_bits_equal(a, b);
    } else if bit(a, j - 1) == bit(b, j - 1) {
        lemma_code_order(a, b, j - 1);
    } else {
        lemma_top_bit_orders(a, b, j - 1);
        lemma_code_below_bound(a, j - 1);
    }
}

/// Where two words agree above bit `t`, the one with bit `t` set is the
/// greater.
proof fn lemma_top_bit_orders(a: u64, b: u64, t: int)
    requires
        0 <= t < 64,
        forall|i: int| t < i < 64 ==> bit(a, i) == bit(b, i),
        bit(a, t) != bit(b, t),
        a < b,
    ensures
        bit(b, t),
        !bit(a, t),
{
    if bit(a, t) {
        let tt = t as u64;
        let ha = if t == 63 {
            0
        } else {
            a >> ((t + 1) as u64)
        };
        let hb = if t == 63 {
            0
        } else {
            b >> ((t + 1) as u64)
        };
        if t < 63 {
            lemma_bit_shr(a, (t + 1) as u64);
            lemma_bit_shr(b, (t + 1) as u64);
            assert forall|i: int| 0 <= i < 64 implies bit(ha, i) == bit(hb, i) by {
                if i + t + 1 < 64 {
                    assert(bit(a, i + t + 1) == bit(b, i + t + 1));
                }
            }
            lemma_bits_equal(ha, hb);
        }
        let s = (t + 1) as u64;
        assert(false) by (bit_vector)
            requires
                tt < 64,
                s == tt + 1,
                (a >> tt) & 1 == 1,
                (b >> tt) & 1 != 1,
                tt < 63 ==> a >> s == b >> s,
                a < b,
        ;
    }
}

/// Encodes a block: its class and what is stored beside it.
pub fn encode(w: u64) -> (kc: (usize, u64))
    ensures
        kc.0 == popcount(w),
        kc.1 == stored_code(w),
        valid_code(kc.0 as nat, kc.1 as nat),
{
    let k = count_ones(w);
    proof {
        lemma_decode_encode(w);
        lemma_code_bound(w);
    }
    if code_size(k) == RAW_BITS {
        return (k, w);
    }
    let mut c: u64 = 0;
    let mut remaining: usize = k;
    let mut j: usize = 64;
    while j > 0 && remaining > 0
        invariant
            j <= 64,
            remaining == ones_below(w, j as int),
            remaining <= 64,
            c + code_below(w, j as int) == enum_code(w),
            enum_code(w) <= u64::MAX,
        decreases j,
    {
        j = j - 1;
        if test_bit(w, j) {
            c = c + combination(j, remaining);
            remaining = remaining - 1;
        }
    }
    proof {
        if j > 0 {
            lemma_code_below_empty(w, j as int);
        }
    }
    (k, c)
}

/// Decodes the block that is stored as class `k` and code `c`.
pub fn decode(k: usize, c: u64) -> (w: u64)
    requires
        valid_code(k as nat, c as nat),
    ensures
        w == decoded(k as nat, c as nat),
{
    if code_size(k) == RAW_BITS {
        return c;
    }
    let mut w: u64 = 0;
    let mut rest: u64 = c;
    let mut remaining: usize = k;
    let mut j: usize = 64;
    proof {
        lemma_bit_const();
    }
    while j > 0
        invariant
            j <= 64,
            remaining <= 64,
            rest < binomial(j as nat, remaining as nat),
            joins(decoded(k as nat, c as nat), w, pattern(j as int, remaining as nat, rest as nat)),
        decreases j,
    {
        let ghost lo = pattern(j as int, remaining as nat, rest as nat);
        proof {
            lemma_pattern_step(j as int, remaining as nat, rest as nat);
        }
        j = j - 1;
        let t = combination(j, remaining);
        if rest >= t {
            proof {
                let y = pattern(j as int, (remaining - 1) as nat, (rest - t) as nat);
                lemma_bit_logic(y, 1u64 << (j as u64));
                lemma_bit_single(j as u64);
                assert(lo == y | (1u64 << (j as u64)));
            }
            w = with_bit(w, j);
            rest = rest - t;
            remaining = remaining - 1;
        } else {
            assert(lo == pattern(j as int, remaining as nat, rest as nat));
        }
    }
    proof {
        lemma_bits_equal(w, decoded(k as nat, c as nat));
    }
    w
}

/// The number of set bits among the first `p` positions of the block that
/// is stored as class `k` and code `c`, found without decoding the rest.
pub fn block_rank(k: usize, c: u64, p: usize) -> (r: usize)
    requires
        valid_code(k as nat, c as nat),
        p <= 64,
    ensures
        r == ones_from(decoded(k as nat, c as nat), 64 - p),
        r <= p,
        r <= k,
{
    proof {
        lemma_ones_split(decoded(k as nat, c as nat), 64 - p);
        lemma_encode_decode(k as nat, c as nat);
    }
    if code_size(k) == RAW_BITS {
        return count_ones_top(c, p);
    }
    let ghost x = decoded(k as nat, c as nat);
    let ghost mut hi: u64 = 0;
    let mut rest: u64 = c;
    let mut remaining: usize = k;
    let mut j: usize = 64;
    proof {
        lemma_bit_const();
    }
    while j > 64 - p && remaining > 0
        invariant
            p <= 64,
            64 - p <= j <= 64,
            remaining <= k <= 64,
            rest < binomial(j as nat, remaining as nat),
            joins(x, hi, pattern(j as int, remaining as nat, rest as nat)),
            forall|i: int| 0 <= i < j ==> !#[trigger] bit(hi, i),
        decreases j,
    {
        let ghost lo = pattern(j as int, remaining as nat, rest as nat);
        proof {
            lemma_pattern_step(j as int, remaining as nat, rest as nat);
        }
        j = j - 1;
        let t = combination(j, remaining);
        if rest >= t {
            proof {
                let y = pattern(j as int, (remaining - 1) as nat, (rest - t) as nat);
                lemma_bit_logic(y, 1u64 << (j as u64));
                lemma_bit_single(j as u64);
                lemma_bit_logic(hi, 1u64 << (j as u64));
                assert(lo == y | (1u64 << (j as u64)));
                hi = hi | (1u64 << (j as u64));
            }
            rest = rest - t;
            remaining = remaining - 1;
        } else {
            assert(lo == pattern(j as int, remaining as nat, rest as nat));
        }
    }
    proof {
        lemma_seen(x, hi, j as int, remaining as nat, rest as nat);
        if j > 64 - p {
            lemma_no_ones_from(x, j as int, 64 - p);
        }
    }
    k - remaining
}

/// While a block is decoded from the top, with the bits from `j` upwards in
/// `hi` and `r` set bits still to come, it has `r` set bits below `j`.
proof fn lemma_seen(x: u64, hi: u64, j: int, r: nat, c: nat)
    requires
        0 <= j <= 64,
        c < binomial(j as nat, r),
        joins(x, hi, pattern(j, r, c)),
        forall|i: int| 0 <= i < j ==> !#[trigger] bit(hi, i),
    ensures
        ones_below(x, j) == r,
        ones_from(x, j) == popcount(x) - r,
        forall|i: int| j <= i < 64 ==> bit(x, i) == bit(hi, i),
{
    lemma_pattern(j, r, c);
    lemma_ones_below_agree(x, pattern(j, r, c), j);
    lemma_ones_split(x, j);
}

/// Where all set bits of `x` lie at `j` and above, counting from a lower
/// index finds no more of them.
proof fn lemma_no_ones_from(x: u64, j: int, lo: int)
    requires
        0 <= lo <= j <= 64,
        ones_below(x, j) == 0,
    ensures
        ones_from(x, lo) == ones_from(x, j),
    decreases j - lo,
{
    if lo < j {
        lemma_ones_split(x, lo);
        lemma_ones_split(x, j);
        lemma_ones_below_monotone(x, lo, j);
    }
}

/// `ones_below` grows with the index.
pub proof fn lemma_ones_below_monotone(x: u64, i: int, j: int)
    requires
        0 <= i <= j,
    ensures
        ones_below(x, i) <= ones_below(x, j),
    decreases j - i,
{
    if i < j {
        lemma_ones_below_monotone(x, i, j - 1);
    }
}

/// `q` is the position of the `(r + 1)`-th bit of `x` that equals `b`.
pub open spec fn selects_in_word(x: u64, b: bool, r: nat, q: int) -> bool {
    &&& 0 <= q < 64
    &&& bit(x, 63 - q) == b
    &&& r == if b {
        ones_from(x, 64 - q) as int
    } else {
        q - ones_from(x, 64 - q)
    }
}

/// The position of the `(r + 1)`-th bit of `w` that equals `b`.
pub fn word_select(w: u64, b: bool, r: usize) -> (q: usize)
    requires
        r < if b {
            popcount(w) as int
        } else {
            64 - popcount(w)
        },
    ensures
        selects_in_word(w, b, r as nat, q as int),
{
    let mut seen: usize = 0;
    let mut j: usize = 64;
    proof {
        lemma_ones_split(w, 0);
    }
    while j > 0
        invariant
            j <= 64,
            seen <= r,
            seen == if b {
                ones_from(w, j as int) as int
            } else {
                64 - j - ones_from(w, j as int)
            },
            ones_from(w, 0) == popcount(w),
            r < if b {
                popcount(w) as int
            } else {
                64 - popcount(w)
            },
        decreases j,
    {
        proof {
            lemma_ones_split(w, j as int);
        }
        j = j - 1;
        if test_bit(w, j) == b {
            if seen == r {
                return 63 - j;
            }
            seen = seen + 1;
        }
    }
    proof {
        assert(false);
    }
    0
}

/// The position of the `(r + 1)`-th bit that equals `b` in the block that is
/// stored as class `k` and code `c`, found without decoding the rest.
pub fn block_select(k: usize, c: u64, b: bool, r: usize) -> (q: usize)
    requires
        valid_code(k as nat, c as nat),
        r < if b {
            k as int
        } else {
            64 - k
        },
    ensures
        selects_in_word(decoded(k as nat, c as nat), b, r as nat, q as int),
{
    proof {
        lemma_encode_decode(k as nat, c as nat);
    }
    if code_size(k) == RAW_BITS {
        return word_select(c, b, r);
    }
    let ghost x = decoded(k as nat, c as nat);
    let ghost mut hi: u64 = 0;
    let mut rest: u64 = c;
    let mut remaining: usize = k;
    let mut j: usize = 64;
    proof {
        lemma_bit_const();
    }
    while j > 0
        invariant
            j <= 64,
            remaining <= k <= 64,
            x == decoded(k as nat, c as nat),
            popcount(x) == k,
            rest < binomial(j as nat, remaining as nat),
            joins(x, hi, pattern(j as int, remaining as nat, rest as nat)),
            forall|i: int| 0 <= i < j ==> !#[trigger] bit(hi, i),
            r < if b {
                k as int
            } else {
                64 - k
            },
            r >= if b {
                k - remaining
            } else {
                64 - j - (k - remaining)
            },
            64 - j >= k - remaining,
        decreases j,
    {
        let ghost lo = pattern(j as int, remaining as nat, rest as nat);
        proof {
            lemma_pattern_step(j as int, remaining as nat, rest as nat);
            lemma_seen(x, hi, j as int, remaining as nat, rest as nat);
        }
        let seen = if b {
            k - remaining
        } else {
            64 - j - (k - remaining)
        };
        j = j - 1;
        let t = combination(j, remaining);
        let set = rest >= t;
        proof {
            if set {
                let y = pattern(j as int, (remaining - 1) as nat, (rest - t) as nat);
                lemma_pattern(j as int, (remaining - 1) as nat, (rest - t) as nat);
                lemma_bit_logic(y, 1u64 << (j as u64));
                lemma_bit_single(j as u64);
                lemma_bit_logic(hi, 1u64 << (j as u64));
                assert(lo == y | (1u64 << (j as u64)));
                assert(bit(x, j as int));
            } else {
                lemma_pattern(j as int, remaining as nat, rest as nat);
                assert(lo == pattern(j as int, remaining as nat, rest as nat));
                assert(!bit(x, j as int));
            }
        }
        if set == b && seen == r {
            return 63 - j;
        }
        if set {
            proof {
                hi = hi | (1u64 << (j as u64));
            }
            rest = rest - t;
            remaining = remaining - 1;
        }
    }
    proof {
        assert(false);
    }
    0
}

} // verus!
