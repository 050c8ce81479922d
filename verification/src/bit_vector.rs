//! A compressed, append-only bit vector that answers rank and select.
//!
//! The bits are cut into small blocks of 64. A full block is stored as its
//! class (the number of its set bits, in 7 bits) and its code (see the
//! codec), the codes one after the other in one bit stream. Beside them
//! stand two directories: for every large block of 64 small blocks, the
//! number of set bits before it and the offset of its first code; and for
//! every small block the same two numbers, counted from the start of its
//! large block, in 12 bits each. The last, unfinished block waits in a
//! staging word.

use crate::bit_array::{grown, lemma_slice_unique, round_up, slice_is, with_slice, BitArray};
use crate::bits::{
    bit, count_ones, count_ones_top, lemma_bit_const, lemma_high_bits_clear,
    lemma_ones_below_bound, lemma_ones_below_clear, lemma_ones_split, lemma_ones_with_bit,
    lemma_popcount_zero, ones_from, popcount, with_bit,
};
use crate::codec::{
    block_rank, block_select, decoded, encode, lemma_code_bound, lemma_decode_encode,
    selects_in_word, stored_code, valid_code, word_select,
};
use crate::fid::{count_of, lemma_rank_sum, rank_of, selects, FID};
use crate::tables::{code_size, code_width, lemma_code_fits};
use vstd::arithmetic::power2::lemma2_to64;
use vstd::prelude::*;

verus! {

/// The number of bits in a small block.
pub const SMALL_BLOCK_BITS: u64 = 64;

/// The number of small blocks in a large block.
pub const SMALL_PER_LARGE: usize = 64;

/// The number of bits in a large block.
pub const LARGE_BLOCK_BITS: u64 = 4096;

/// The width of a stored class.
pub const CLASS_BITS: usize = 7;

/// The width of an entry of the two small-block directories.
pub const ENTRY_BITS: usize = 12;

/// The bits that `words` and, after them, the staging word hold, `n` in all.
spec fn bits_of_blocks(words: Seq<u64>, staging: u64, n: nat) -> Seq<bool> {
    Seq::new(
        n,
        |i: int|
            bit(
                if i / 64 < words.len() {
                    words[i / 64]
                } else {
                    staging
                },
                63 - i % 64,
            ),
    )
}

/// The number of set bits in the first `s` blocks.
pub open spec fn ones_before(words: Seq<u64>, s: int) -> nat
    decreases s,
{
    if s <= 0 {
        0
    } else {
        ones_before(words, s - 1) + popcount(words[s - 1])
    }
}

/// The number of bits that the codes of the first `s` blocks take.
pub open spec fn offset_before(words: Seq<u64>, s: int) -> nat
    decreases s,
{
    if s <= 0 {
        0
    } else {
        offset_before(words, s - 1) + code_width(popcount(words[s - 1]))
    }
}

/// The `w` bits of `a` from position `i` spell `v`.
spec fn stores(a: Seq<bool>, i: int, w: int, v: int) -> bool {
    &&& 0 <= i
    &&& i + w <= a.len()
    &&& 0 <= v <= u64::MAX
    &&& slice_is(a, i, w, v as u64)
}

/// `a` is a stream of which `used` bits were written: it ends at the next
/// block boundary, and what was not written is unset.
spec fn appended(a: Seq<bool>, used: int) -> bool {
    &&& a.len() == round_up(used)
    &&& forall|q: int| used <= q < a.len() ==> !#[trigger] a[q]
}

/// The stream `a` after the low `w` bits of `v` were written at `used`.
spec fn after_append(a: Seq<bool>, used: int, w: int, v: u64) -> Seq<bool> {
    if w == 0 {
        a
    } else {
        with_slice(grown(a, used + w), used, w, v)
    }
}

/// Writing at the end of a stream adds the value and keeps what the stream
/// held.
proof fn lemma_append(a: Seq<bool>, used: int, w: int, v: u64)
    requires
        appended(a, used),
        0 <= used,
        0 <= w <= 64,
        forall|t: int| w <= t < 64 ==> !bit(v, t),
    ensures
        appended(after_append(a, used, w, v), used + w),
        stores(after_append(a, used, w, v), used, w, v as int),
        forall|i2: int, w2: int, v2: int|
            #[trigger] stores(a, i2, w2, v2) && i2 + w2 <= used && 0 <= w2 ==> stores(
                after_append(a, used, w, v),
                i2,
                w2,
                v2,
            ),
{
    let n = after_append(a, used, w, v);
    assert(n.len() == round_up(used + w));
    assert forall|q: int| used + w <= q < n.len() implies !#[trigger] n[q] by {
        if q < a.len() {
            assert(!a[q]);
        }
    }
    assert forall|t: int| 0 <= t < 64 implies #[trigger] bit(v, t) == (t < w && n[used + w - 1
        - t]) by {
        if t < w {
            let q = used + w - 1 - t;
            if q < a.len() {
                assert(!a[q]);
            }
        }
    }
    assert forall|i2: int, w2: int, v2: int|
        #[trigger] stores(a, i2, w2, v2) && i2 + w2 <= used && 0 <= w2 implies stores(
        n,
        i2,
        w2,
        v2,
    ) by {
        assert forall|t: int| 0 <= t < 64 implies #[trigger] bit(v2 as u64, t) == (t < w2 && n[i2
            + w2 - 1 - t]) by {
            if t < w2 {
                assert(n[i2 + w2 - 1 - t] == a[i2 + w2 - 1 - t]);
            }
        }
    }
}

/// Blocks added later do not change the counts of the blocks before them.
proof fn lemma_before_push(words: Seq<u64>, w: u64, s: int)
    requires
        0 <= s <= words.len(),
    ensures
        ones_before(words.push(w), s) == ones_before(words, s),
        offset_before(words.push(w), s) == offset_before(words, s),
    decreases s,
{
    if s > 0 {
        lemma_before_push(words, w, s - 1);
    }
}

/// Between two blocks the counts grow, by at most 64 for each block.
pub proof fn lemma_before_monotone(words: Seq<u64>, a: int, b: int)
    requires
        0 <= a <= b,
    ensures
        ones_before(words, a) <= ones_before(words, b) <= ones_before(words, a) + 64 * (b - a),
        offset_before(words, a) <= offset_before(words, b) <= offset_before(words, a) + 64 * (b
            - a),
    decreases b - a,
{
    if a < b {
        lemma_before_monotone(words, a, b - 1);
        lemma_ones_below_bound(words[b - 1], 64);
        lemma_code_fits(popcount(words[b - 1]));
    }
}

/// The number of bits equal to `b` in the first `s` blocks.
spec fn count_before(words: Seq<u64>, b: bool, s: int) -> int {
    if b {
        ones_before(words, s) as int
    } else {
        64 * s - ones_before(words, s)
    }
}

/// The number of bits equal to `b` among the first `p` positions of `x`.
spec fn count_in_word(x: u64, b: bool, p: int) -> int {
    if b {
        ones_from(x, 64 - p) as int
    } else {
        p - ones_from(x, 64 - p)
    }
}

/// The rank at the end of a run of positions that hold the first `p` bits
/// of the word `x`.
proof fn lemma_rank_in_block(v: Seq<bool>, x: u64, base: int, p: int, b: bool)
    requires
        0 <= base,
        0 <= p <= 64,
        forall|i: int| base <= i < base + p ==> #[trigger] v[i] == bit(x, 63 - (i - base)),
    ensures
        rank_of(v, b, base + p) == rank_of(v, b, base) + count_in_word(x, b, p),
    decreases p,
{
    if p > 0 {
        lemma_rank_in_block(v, x, base, p - 1, b);
        assert(v[base + p - 1] == bit(x, 63 - (base + p - 1 - base)));
    }
}

/// The rank at a block boundary is the number of set bits of the blocks
/// before it.
proof fn lemma_rank_blocks(words: Seq<u64>, staging: u64, n: nat, b: bool, s: int)
    requires
        0 <= s <= words.len(),
        64 * s <= n,
    ensures
        rank_of(bits_of_blocks(words, staging, n), b, 64 * s) == count_before(words, b, s),
    decreases s,
{
    if s > 0 {
        let v = bits_of_blocks(words, staging, n);
        lemma_rank_blocks(words, staging, n, b, s - 1);
        assert forall|i: int| 64 * (s - 1) <= i < 64 * (s - 1) + 64 implies #[trigger] v[i]
            == bit(words[s - 1], 63 - (i - 64 * (s - 1))) by {
            assert(i / 64 == s - 1 && i % 64 == i - 64 * (s - 1));
        }
        lemma_rank_in_block(v, words[s - 1], 64 * (s - 1), 64, b);
        lemma_ones_split(words[s - 1], 0);
    }
}

/// What is stored for block `s`: its class, its code, and its two entries
/// in the small-block directories.
spec fn block_stored(
    words: Seq<u64>,
    classes: Seq<bool>,
    pops: Seq<bool>,
    ptrs: Seq<bool>,
    codes: Seq<bool>,
    s: int,
) -> bool {
    let start = s / 64 * 64;
    &&& stores(classes, 7 * s, 7, popcount(words[s]) as int)
    &&& stores(pops, 12 * s, 12, ones_before(words, s) - ones_before(words, start))
    &&& stores(ptrs, 12 * s, 12, offset_before(words, s) - offset_before(words, start))
    &&& stores(
        codes,
        offset_before(words, s) as int,
        code_width(popcount(words[s])) as int,
        stored_code(words[s]) as int,
    )
}

/// The two large-block directories, the two small-block directories and
/// the two streams hold what the blocks `words` call for.
spec fn directories_hold(
    words: Seq<u64>,
    pop_large: Seq<u64>,
    ptr_large: Seq<u64>,
    classes: Seq<bool>,
    pops: Seq<bool>,
    ptrs: Seq<bool>,
    codes: Seq<bool>,
    code_len: u64,
) -> bool {
    let nb = words.len() as int;
    &&& 64 * nb + 64 <= usize::MAX - 128
    &&& pop_large.len() == (nb + 63) / 64
    &&& ptr_large.len() == (nb + 63) / 64
    &&& forall|l: int|
        0 <= l < (nb + 63) / 64 ==> #[trigger] pop_large[l] == ones_before(words, l * 64)
    &&& forall|l: int|
        0 <= l < (nb + 63) / 64 ==> #[trigger] ptr_large[l] == offset_before(words, l * 64)
    &&& code_len == offset_before(words, nb)
    &&& appended(classes, 7 * nb)
    &&& appended(pops, 12 * nb)
    &&& appended(ptrs, 12 * nb)
    &&& appended(codes, code_len as int)
    &&& forall|s: int|
        0 <= s < nb ==> #[trigger] block_stored(words, classes, pops, ptrs, codes, s)
}

/// Pushing a bit sets it in the staging word, which becomes a block when
/// it is full.
proof fn lemma_push_bits(words: Seq<u64>, staging: u64, n: nat, word: u64, b: bool)
    requires
        words.len() == n / 64,
        forall|p: int| n % 64 <= p < 64 ==> !#[trigger] bit(staging, 63 - p),
        forall|i: int| 0 <= i < 64 ==> #[trigger] bit(word, i) == (bit(staging, i) || (b && i == 63
            - n % 64)),
    ensures
        n % 64 == 63 ==> bits_of_blocks(words.push(word), 0, n + 1) == bits_of_blocks(
            words,
            staging,
            n,
        ).push(b),
        n % 64 != 63 ==> bits_of_blocks(words, word, n + 1) == bits_of_blocks(
            words,
            staging,
            n,
        ).push(b),
        forall|p: int| n % 64 + 1 <= p < 64 ==> !#[trigger] bit(word, 63 - p),
{
    let before = bits_of_blocks(words, staging, n);
    assert(!bit(staging, 63 - (n % 64) as int));
    if n % 64 == 63 {
        let after = bits_of_blocks(words.push(word), 0, n + 1);
        assert forall|i: int| 0 <= i < n + 1 implies after[i] == before.push(b)[i] by {
            if i / 64 < words.len() {
                assert(words.push(word)[i / 64] == words[i / 64]);
            } else {
                assert(words.push(word)[i / 64] == word);
            }
        }
        assert(after =~= before.push(b));
    } else {
        let after = bits_of_blocks(words, word, n + 1);
        assert forall|i: int| 0 <= i < n + 1 implies after[i] == before.push(b)[i] by {}
        assert(after =~= before.push(b));
    }
}

/// A compressed, append-only bit vector with rank and select. Its view is
/// the sequence of the bits pushed.
pub struct BitVector {
    len: u64,
    ones: u64,
    pop_large: Vec<u64>,
    ptr_large: Vec<u64>,
    pop_small: BitArray,
    ptr_small: BitArray,
    classes: BitArray,
    codes: BitArray,
    code_len: u64,
    staging_word: u64,
    staging_len: usize,
    words: Ghost<Seq<u64>>,
}

impl Clone for BitVector {
    /// Returns a vector with the same bits.
    fn clone(&self) -> (copy: Self)
        ensures
            copy@ == self@,
            self.wf() ==> copy.wf(),
    {
        let pop_large = self.pop_large.clone();
        let ptr_large = self.ptr_large.clone();
        assert(pop_large@ =~= self.pop_large@);
        assert(ptr_large@ =~= self.ptr_large@);
        BitVector {
            len: self.len,
            ones: self.ones,
            pop_large,
            ptr_large,
            pop_small: self.pop_small.clone(),
            ptr_small: self.ptr_small.clone(),
            classes: self.classes.clone(),
            codes: self.codes.clone(),
            code_len: self.code_len,
            staging_word: self.staging_word,
            staging_len: self.staging_len,
            words: Ghost(self.words@),
        }
    }
}

impl View for BitVector {
    type V = Seq<bool>;

    closed spec fn view(&self) -> Seq<bool> {
        bits_of_blocks(self.words@, self.staging_word, self.len as nat)
    }
}

impl BitVector {
    /// The greatest length that a vector can grow to.
    pub open spec fn max_len() -> int {
        usize::MAX - 192
    }

    /// The full blocks, as they were before they were encoded.
    pub closed spec fn blocks(&self) -> Seq<u64> {
        self.words@
    }

    /// The directory of the large blocks: for each, the number of set bits
    /// before it.
    pub closed spec fn large_ones(&self) -> Seq<u64> {
        self.pop_large@
    }

    /// The directories and the streams hold what the full blocks call for.
    spec fn committed(&self) -> bool {
        &&& self.pop_small.inv()
        &&& self.ptr_small.inv()
        &&& self.classes.inv()
        &&& self.codes.inv()
        &&& directories_hold(
            self.words@,
            self.pop_large@,
            self.ptr_large@,
            self.classes@,
            self.pop_small@,
            self.ptr_small@,
            self.codes@,
            self.code_len,
        )
    }

    /// The vector is consistent: beside what `committed` says, the staging
    /// word holds the bits after the last full block and nothing else, and
    /// the set bits are counted.
    pub closed spec fn wf(&self) -> bool {
        &&& self.committed()
        &&& self.len <= Self::max_len()
        &&& self.words@.len() == self.len / 64
        &&& self.staging_len == self.len % 64
        &&& forall|p: int| self.staging_len <= p < 64 ==> !#[trigger] bit(self.staging_word, 63 - p)
        &&& self.ones == ones_before(self.words@, self.words@.len() as int) + popcount(
            self.staging_word,
        )
    }

    /// Returns an empty vector.
    pub fn new() -> (v: BitVector)
        ensures
            v.wf(),
            v@ == Seq::<bool>::empty(),
    {
        let v = BitVector {
            len: 0,
            ones: 0,
            pop_large: Vec::new(),
            ptr_large: Vec::new(),
            pop_small: BitArray::new(0),
            ptr_small: BitArray::new(0),
            classes: BitArray::new(0),
            codes: BitArray::new(0),
            code_len: 0,
            staging_word: 0,
            staging_len: 0,
            words: Ghost(Seq::empty()),
        };
        proof {
            lemma_bit_const();
            lemma_popcount_zero();
            assert(v@ =~= Seq::<bool>::empty());
        }
        v
    }

    /// Commits the full block `w`: appends its class, its code and its
    /// directory entries, and opens a large block where `w` is the first
    /// of one. `total` is the number of set bits up to the end of `w`.
    fn flush_block(&mut self, w: u64, total: u64)
        requires
            old(self).committed(),
            old(self).words@.len() == old(self).len / 64,
            64 * old(self).words@.len() + 128 <= usize::MAX - 128,
            total == ones_before(old(self).words@, old(self).words@.len() as int) + popcount(w),
        ensures
            final(self).committed(),
            final(self).words@ == old(self).words@.push(w),
            final(self).len == old(self).len,
            final(self).ones == old(self).ones,
            final(self).staging_word == old(self).staging_word,
            final(self).staging_len == old(self).staging_len,
    {
        let ghost words = self.words@;
        let ghost nb = words.len() as int;
        let ghost next = words.push(w);
        let s = (self.len / SMALL_BLOCK_BITS) as usize;
        let (k, c) = encode(w);
        let width = code_size(k);
        let start_ones = total - k as u64;
        let l = s / SMALL_PER_LARGE;
        proof {
            lemma_before_monotone(words, 0, nb);
            lemma_before_monotone(words, l * 64, nb);
            lemma_code_bound(w);
            lemma_code_fits(k as nat);
            lemma2_to64();
        }
        if s % SMALL_PER_LARGE == 0 {
            self.pop_large.push(start_ones);
            self.ptr_large.push(self.code_len);
        }
        let pop = start_ones - self.pop_large[l];
        let ptr = self.code_len - self.ptr_large[l];
        let ghost old_pops = self.pop_small@;
        let ghost old_ptrs = self.ptr_small@;
        let ghost old_classes = self.classes@;
        let ghost old_codes = self.codes@;
        proof {
            lemma_high_bits_clear(pop, 12);
            lemma_high_bits_clear(ptr, 12);
            lemma_high_bits_clear(k as u64, 7);
            lemma_high_bits_clear(c, width as int);
            lemma_append(old_pops, 12 * nb, 12, pop);
            lemma_append(old_ptrs, 12 * nb, 12, ptr);
            lemma_append(old_classes, 7 * nb, 7, k as u64);
            lemma_append(old_codes, self.code_len as int, width as int, c);
        }
        self.pop_small.set_word(s, ENTRY_BITS, pop);
        self.ptr_small.set_word(s, ENTRY_BITS, ptr);
        self.classes.set_word(s, CLASS_BITS, k as u64);
        self.codes.set_slice(self.code_len as usize, width, c);
        self.code_len = self.code_len + width as u64;
        self.words = Ghost(next);
        proof {
            assert(self.pop_small@ == after_append(old_pops, 12 * nb, 12, pop));
            assert(self.ptr_small@ == after_append(old_ptrs, 12 * nb, 12, ptr));
            assert(self.classes@ == after_append(old_classes, 7 * nb, 7, k as u64));
            assert(self.codes@ == after_append(old_codes, old(self).code_len as int, width as int, c));
            assert forall|t: int| 0 <= t <= nb + 1 implies ones_before(next, t) == if t <= nb {
                ones_before(words, t)
            } else {
                total as nat
            } && offset_before(next, t) == if t <= nb {
                offset_before(words, t)
            } else {
                (old(self).code_len + width) as nat
            } by {
                if t <= nb {
                    lemma_before_push(words, w, t);
                } else {
                    lemma_before_push(words, w, nb);
                    assert(next[nb] == w);
                }
            }
            assert forall|t: int| 0 <= t < nb + 1 implies #[trigger] block_stored(
                next,
                self.classes@,
                self.pop_small@,
                self.ptr_small@,
                self.codes@,
                t,
            ) by {
                if t < nb {
                    assert(block_stored(words, old_classes, old_pops, old_ptrs, old_codes, t));
                    assert(next[t] == words[t]);
                    lemma_before_monotone(words, t + 1, nb);
                    assert(ones_before(next, t / 64 * 64) == ones_before(words, t / 64 * 64));
                    assert(offset_before(next, t / 64 * 64) == offset_before(words, t / 64 * 64));
                } else {
                    assert(next[t] == w);
                    assert(ones_before(next, t / 64 * 64) == ones_before(words, t / 64 * 64));
                    assert(offset_before(next, t / 64 * 64) == offset_before(words, t / 64 * 64));
                }
            }
        }
    }

    /// Appends the bit `b`.
    pub fn push(&mut self, b: bool)
        requires
            old(self).wf(),
            old(self)@.len() < Self::max_len(),
        ensures
            final(self).wf(),
            final(self)@ == old(self)@.push(b),
    {
        let ghost words = self.words@;
        let ghost nb = words.len() as int;
        let word = if b {
            with_bit(self.staging_word, 63 - self.staging_len)
        } else {
            self.staging_word
        };
        proof {
            lemma_before_monotone(words, 0, nb);
            lemma_ones_below_bound(self.staging_word, 64);
            if b {
                assert(!bit(self.staging_word, 63 - self.staging_len));
                lemma_ones_with_bit(self.staging_word, word, 63 - self.staging_len, 64);
            }
            lemma_ones_below_bound(word, 64);
            lemma_push_bits(words, self.staging_word, self.len as nat, word, b);
        }
        let total = if b {
            self.ones + 1
        } else {
            self.ones
        };
        if self.staging_len == 63 {
            self.flush_block(word, total);
            self.staging_word = 0;
            self.staging_len = 0;
            proof {
                lemma_bit_const();
                lemma_popcount_zero();
                lemma_before_push(words, word, nb);
                assert(self.words@[nb] == word);
                assert(ones_before(self.words@, nb + 1) == total);
            }
        } else {
            self.staging_word = word;
            self.staging_len = self.staging_len + 1;
        }
        self.ones = total;
        self.len = self.len + 1;
    }

    /// The rank at the end of the full blocks, and at the end of the vector.
    proof fn lemma_totals(&self, b: bool)
        requires
            self.wf(),
        ensures
            rank_of(self@, b, 64 * (self.words@.len() as int)) == count_before(
                self.words@,
                b,
                self.words@.len() as int,
            ),
            count_of(self@, b) == count_before(self.words@, b, self.words@.len() as int)
                + count_in_word(self.staging_word, b, self.staging_len as int),
            count_in_word(self.staging_word, true, self.staging_len as int) == popcount(
                self.staging_word,
            ),
            count_of(self@, true) == self.ones,
            count_of(self@, false) == self.len - self.ones,
    {
        let nb = self.words@.len() as int;
        let tail = self.staging_len as int;
        lemma_rank_blocks(self.words@, self.staging_word, self.len as nat, b, nb);
        lemma_rank_blocks(self.words@, self.staging_word, self.len as nat, true, nb);
        lemma_rank_blocks(self.words@, self.staging_word, self.len as nat, false, nb);
        assert forall|i: int| 64 * nb <= i < 64 * nb + tail implies #[trigger] self@[i] == bit(
            self.staging_word,
            63 - (i - 64 * nb),
        ) by {
            assert(i / 64 == nb && i % 64 == i - 64 * nb);
        }
        lemma_rank_in_block(self@, self.staging_word, 64 * nb, tail, b);
        lemma_rank_in_block(self@, self.staging_word, 64 * nb, tail, true);
        lemma_rank_in_block(self@, self.staging_word, 64 * nb, tail, false);
        assert forall|i: int| 0 <= i < 64 - tail implies !bit(self.staging_word, i) by {
            assert(!bit(self.staging_word, 63 - (63 - i)));
        }
        lemma_ones_below_clear(self.staging_word, 64 - tail);
        lemma_ones_split(self.staging_word, 64 - tail);
    }

    /// The full blocks are the bits of the vector, 64 to a block, the first
    /// of them the most significant.
    pub proof fn lemma_blocks(&self)
        requires
            self.wf(),
        ensures
            self.blocks().len() == self@.len() / 64,
            forall|s: int, j: int|
                0 <= s < self.blocks().len() && 0 <= j < 64 ==> #[trigger] bit(
                    self.blocks()[s],
                    j,
                ) == self@[64 * s + 63 - j],
    {
        assert forall|s: int, j: int| 0 <= s < self.blocks().len() && 0 <= j < 64 implies #[trigger] bit(
            self.blocks()[s],
            j,
        ) == self@[64 * s + 63 - j] by {
            let i = 64 * s + 63 - j;
            assert(i / 64 == s && i % 64 == 63 - j);
        }
    }

    /// At every large-block boundary the directory holds the number of set
    /// bits before it.
    pub proof fn lemma_large_directory(&self, l: int)
        requires
            self.wf(),
            0 <= l < self.large_ones().len(),
        ensures
            self.large_ones().len() == (self@.len() / 64 + 63) / 64,
            l * 4096 <= self@.len(),
            self.large_ones()[l] == rank_of(self@, true, l * 4096),
    {
        lemma_rank_blocks(self.words@, self.staging_word, self.len as nat, true, l * 64);
    }

    /// The number of set bits before the full block `s`, its class, and the
    /// offset of its code.
    fn block_head(&self, s: usize) -> (e: (u64, usize, usize))
        requires
            self.committed(),
            s < self.words@.len(),
        ensures
            e.0 == ones_before(self.words@, s as int),
            e.1 == popcount(self.words@[s as int]),
            e.2 == offset_before(self.words@, s as int),
    {
        let ghost words = self.words@;
        let ghost nb = words.len() as int;
        let l = s / SMALL_PER_LARGE;
        proof {
            assert(block_stored(
                words,
                self.classes@,
                self.pop_small@,
                self.ptr_small@,
                self.codes@,
                s as int,
            ));
            lemma_before_monotone(words, l * 64, s as int);
            lemma_before_monotone(words, 0, s as int);
            lemma_before_monotone(words, s as int, nb);
            assert(self.pop_large@[l as int] == ones_before(words, l * 64));
            assert(self.ptr_large@[l as int] == offset_before(words, l * 64));
        }
        let pop = self.pop_small.get_word(s, ENTRY_BITS);
        let ptr = self.ptr_small.get_word(s, ENTRY_BITS);
        let k = self.classes.get_word(s, CLASS_BITS);
        proof {
            lemma_slice_unique(
                self.pop_small@,
                12 * s,
                12,
                pop,
                (ones_before(words, s as int) - ones_before(words, l * 64)) as u64,
            );
            lemma_slice_unique(
                self.ptr_small@,
                12 * s,
                12,
                ptr,
                (offset_before(words, s as int) - offset_before(words, l * 64)) as u64,
            );
            lemma_slice_unique(self.classes@, 7 * s, 7, k, popcount(words[s as int]) as u64);
            lemma_ones_below_bound(words[s as int], 64);
        }
        (self.pop_large[l] + pop, k as usize, (self.ptr_large[l] + ptr) as usize)
    }

    /// The code of the full block `s`, whose class is `k` and whose code
    /// starts at `offset`.
    fn block_code(&self, s: usize, k: usize, offset: usize) -> (c: u64)
        requires
            self.committed(),
            s < self.words@.len(),
            k == popcount(self.words@[s as int]),
            offset == offset_before(self.words@, s as int),
        ensures
            c == stored_code(self.words@[s as int]),
            valid_code(k as nat, c as nat),
            decoded(k as nat, c as nat) == self.words@[s as int],
    {
        proof {
            assert(block_stored(
                self.words@,
                self.classes@,
                self.pop_small@,
                self.ptr_small@,
                self.codes@,
                s as int,
            ));
            lemma_ones_below_bound(self.words@[s as int], 64);
            lemma_decode_encode(self.words@[s as int]);
        }
        let c = self.codes.get_slice(offset, code_size(k));
        proof {
            lemma_slice_unique(
                self.codes@,
                offset as int,
                code_width(k as nat) as int,
                c,
                stored_code(self.words@[s as int]) as u64,
            );
        }
        c
    }

    /// The number of bits equal to `b` before the full block `s`.
    fn count_at(&self, b: bool, s: usize) -> (n: u64)
        requires
            self.committed(),
            s < self.words@.len(),
        ensures
            n == count_before(self.words@, b, s as int),
    {
        proof {
            lemma_before_monotone(self.words@, 0, s as int);
        }
        let head = self.block_head(s);
        if b {
            head.0
        } else {
            (s as u64) * SMALL_BLOCK_BITS - head.0
        }
    }

    /// The number of bits equal to `b` before the large block `l`.
    fn count_at_large(&self, b: bool, l: usize) -> (n: u64)
        requires
            self.committed(),
            l < (self.words@.len() + 63) / 64,
        ensures
            n == count_before(self.words@, b, l * 64),
    {
        proof {
            lemma_before_monotone(self.words@, 0, l * 64);
            assert(self.pop_large@[l as int] == ones_before(self.words@, l * 64));
        }
        if b {
            self.pop_large[l]
        } else {
            (l as u64) * LARGE_BLOCK_BITS - self.pop_large[l]
        }
    }

    /// Locates the `(r + 1)`-th bit equal to `b` where it lies in the
    /// staging word: `full_count` bits equal to `b` lie in the full blocks.
    fn select_in_tail(&self, b: bool, r: u64, full_count: u64) -> (pos: u64)
        requires
            self.wf(),
            full_count == count_before(self.words@, b, self.words@.len() as int),
            full_count <= r < count_of(self@, b),
        ensures
            selects(self@, b, r as nat, pos as int),
    {
        let ghost x = self.staging_word;
        let ghost nb = self.words@.len() as int;
        let ghost tail = self.staging_len as int;
        proof {
            self.lemma_totals(b);
            lemma_ones_split(x, 0);
            lemma_ones_split(x, 64 - tail);
        }
        let q = word_select(self.staging_word, b, (r - full_count) as usize);
        proof {
            if q >= tail {
                assert(!bit(x, 63 - q));
                assert forall|i: int| 0 <= i < 64 - q implies !bit(x, i) by {
                    assert(!bit(x, 63 - (63 - i)));
                }
                lemma_ones_below_clear(x, 64 - q);
                lemma_ones_split(x, 64 - q);
                assert(false);
            }
            assert forall|i: int| 64 * nb <= i < 64 * nb + q implies #[trigger] self@[i] == bit(
                x,
                63 - (i - 64 * nb),
            ) by {
                assert(i / 64 == nb && i % 64 == i - 64 * nb);
            }
            lemma_rank_in_block(self@, x, 64 * nb, q as int, b);
            let i = 64 * nb + q;
            assert(i / 64 == nb && i % 64 == q);
            assert(self@[i] == bit(x, 63 - q));
        }
        (self.len - self.staging_len as u64) + q as u64
    }

    /// Finds the large block that holds the `(r + 1)`-th bit equal to `b`
    /// of the full blocks: the last one with at most `r` such bits before
    /// it.
    fn find_large(&self, b: bool, r: u64) -> (l: usize)
        requires
            self.committed(),
            r < count_before(self.words@, b, self.words@.len() as int),
        ensures
            l < (self.words@.len() + 63) / 64,
            count_before(self.words@, b, l * 64) <= r,
            l + 1 < (self.words@.len() + 63) / 64 ==> count_before(self.words@, b, (l + 1) * 64)
                > r,
    {
        let mut lo: usize = 0;
        let mut hi: usize = self.pop_large.len();
        while hi - lo > 1
            invariant
                self.committed(),
                lo < hi <= (self.words@.len() + 63) / 64,
                count_before(self.words@, b, lo * 64) <= r,
                hi < (self.words@.len() + 63) / 64 ==> count_before(self.words@, b, hi * 64) > r,
            decreases hi - lo,
        {
            let mid = lo + (hi - lo) / 2;
            if self.count_at_large(b, mid) <= r {
                lo = mid;
            } else {
                hi = mid;
            }
        }
        lo
    }

    /// Finds, in the large block `l`, the small block that holds the
    /// `(r + 1)`-th bit equal to `b`: the last one with at most `r` such
    /// bits before it.
    fn find_small(&self, b: bool, r: u64, l: usize) -> (s: usize)
        requires
            self.committed(),
            r < count_before(self.words@, b, self.words@.len() as int),
            l < (self.words@.len() + 63) / 64,
            count_before(self.words@, b, l * 64) <= r,
            l + 1 < (self.words@.len() + 63) / 64 ==> count_before(self.words@, b, (l + 1) * 64)
                > r,
            self.len / 64 == self.words@.len(),
        ensures
            s < self.words@.len(),
            count_before(self.words@, b, s as int) <= r < count_before(self.words@, b, s + 1),
    {
        let nb = (self.len / SMALL_BLOCK_BITS) as usize;
        let first = l * SMALL_PER_LARGE;
        let last = if nb - first > SMALL_PER_LARGE {
            first + SMALL_PER_LARGE
        } else {
            nb
        };
        let mut lo: usize = first;
        let mut hi: usize = last;
        while hi - lo > 1
            invariant
                self.committed(),
                nb == self.words@.len(),
                first <= lo < hi <= last <= nb,
                count_before(self.words@, b, lo as int) <= r,
                hi < last ==> count_before(self.words@, b, hi as int) > r,
            decreases hi - lo,
        {
            let mid = lo + (hi - lo) / 2;
            if self.count_at(b, mid) <= r {
                lo = mid;
            } else {
                hi = mid;
            }
        }
        proof {
            if lo + 1 == last && last < nb {
                assert(last == (l + 1) * 64);
            }
        }
        lo
    }

    /// Locates the `(r + 1)`-th bit equal to `b` in the full block `s` that
    /// holds it.
    fn select_in_block(&self, b: bool, r: u64, s: usize) -> (pos: u64)
        requires
            self.wf(),
            s < self.words@.len(),
            count_before(self.words@, b, s as int) <= r < count_before(self.words@, b, s + 1),
        ensures
            selects(self@, b, r as nat, pos as int),
    {
        let ghost words = self.words@;
        let ghost x = words[s as int];
        proof {
            lemma_ones_split(x, 0);
            lemma_ones_below_bound(x, 64);
            lemma_before_monotone(words, 0, s as int);
            lemma_before_monotone(words, s + 1, words.len() as int);
        }
        let head = self.block_head(s);
        let c = self.block_code(s, head.1, head.2);
        let before = if b {
            head.0
        } else {
            (s as u64) * SMALL_BLOCK_BITS - head.0
        };
        let q = block_select(head.1, c, b, (r - before) as usize);
        proof {
            lemma_rank_blocks(words, self.staging_word, self.len as nat, b, s as int);
            assert forall|i: int| 64 * s <= i < 64 * s + 64 implies #[trigger] self@[i] == bit(
                x,
                63 - (i - 64 * s),
            ) by {
                assert(i / 64 == s && i % 64 == i - 64 * s);
            }
            lemma_rank_in_block(self@, x, 64 * s, q as int, b);
            assert(self@[64 * s + q] == bit(x, 63 - q));
        }
        (s as u64) * SMALL_BLOCK_BITS + q as u64
    }

    /// Locates the `(r + 1)`-th bit equal to `b`: by bisection over the
    /// large blocks, then over the small blocks of one large block, then
    /// inside one small block.
    pub fn select_bit(&self, b: bool, r: u64) -> (pos: u64)
        requires
            self.wf(),
            r < count_of(self@, b),
        ensures
            selects(self@, b, r as nat, pos as int),
    {
        let tail_ones = count_ones(self.staging_word) as u64;
        proof {
            self.lemma_totals(b);
            lemma_before_monotone(self.words@, 0, self.words@.len() as int);
        }
        let full_ones = self.ones - tail_ones;
        let full_count = if b {
            full_ones
        } else {
            (self.len - self.staging_len as u64) - full_ones
        };
        if r >= full_count {
            self.select_in_tail(b, r, full_count)
        } else {
            let l = self.find_large(b, r);
            let s = self.find_small(b, r, l);
            self.select_in_block(b, r, s)
        }
    }

    /// The number of bytes that the vector takes: the two large-block
    /// directories, the four bit streams, and five scalar fields.
    pub open spec fn byte_size(&self) -> int {
        let nb = self.blocks().len() as int;
        16 * ((nb + 63) / 64) + 2 * (round_up(12 * nb) / 8) + round_up(7 * nb) / 8 + round_up(
            offset_before(self.blocks(), nb) as int,
        ) / 8 + 40
    }

    /// No vector takes more than 13 bytes for each full block, and 128.
    pub proof fn lemma_byte_size_bound(&self)
        requires
            self.wf(),
        ensures
            self.blocks().len() == self@.len() / 64,
            self.byte_size() <= 13 * (self@.len() / 64) + 128,
    {
        lemma_before_monotone(self.words@, 0, self.words@.len() as int);
    }

    /// Returns the number of bytes that the vector takes in memory.
    pub fn size_bytes(&self) -> (n: usize)
        requires
            self.wf(),
        ensures
            n == self.byte_size(),
    {
        proof {
            self.lemma_byte_size_bound();
        }
        let directories = 8 * self.pop_large.len() + 8 * self.ptr_large.len();
        let streams = self.pop_small.size() + self.ptr_small.size() + self.classes.size()
            + self.codes.size();
        directories + streams + 40
    }
}

impl FID for BitVector {
    open spec fn bits(&self) -> Seq<bool> {
        self@
    }

    open spec fn inv(&self) -> bool {
        self.wf()
    }

    proof fn lemma_len_fits(&self) {
    }

    fn len(&self) -> (n: u64) {
        self.len
    }

    fn rank1(&self, i: u64) -> (r: u64) {
        let ghost words = self.words@;
        let tail = self.staging_len as u64;
        let full = self.len - tail;
        proof {
            self.lemma_totals(true);
            lemma_before_monotone(words, 0, words.len() as int);
        }
        if i > full {
            let tail_ones = count_ones(self.staging_word) as u64;
            let p = (i - full) as usize;
            proof {
                let nb = words.len() as int;
                assert forall|t: int| 64 * nb <= t < 64 * nb + p implies #[trigger] self@[t]
                    == bit(self.staging_word, 63 - (t - 64 * nb)) by {
                    assert(t / 64 == nb && t % 64 == t - 64 * nb);
                }
                lemma_rank_in_block(self@, self.staging_word, 64 * nb, p as int, true);
            }
            self.ones - tail_ones + count_ones_top(self.staging_word, p) as u64
        } else if i == 0 {
            0
        } else {
            let s = ((i - 1) / SMALL_BLOCK_BITS) as usize;
            let p = (i - (s as u64) * SMALL_BLOCK_BITS) as usize;
            let head = self.block_head(s);
            let ghost x = words[s as int];
            proof {
                lemma_rank_blocks(words, self.staging_word, self.len as nat, true, s as int);
                assert forall|t: int| 64 * s <= t < 64 * s + p implies #[trigger] self@[t] == bit(
                    x,
                    63 - (t - 64 * s),
                ) by {
                    assert(t / 64 == s && t % 64 == t - 64 * s);
                }
                lemma_rank_in_block(self@, x, 64 * s, p as int, true);
                lemma_ones_split(x, 0);
                lemma_before_monotone(words, s as int + 1, words.len() as int);
            }
            if p == 64 {
                head.0 + head.1 as u64
            } else {
                let c = self.block_code(s, head.1, head.2);
                head.0 + block_rank(head.1, c, p) as u64
            }
        }
    }

    fn select0(&self, r: u64) -> (pos: u64) {
        self.select_bit(false, r)
    }

    fn select1(&self, r: u64) -> (pos: u64) {
        self.select_bit(true, r)
    }
}

} // verus!
