//! A growable array of bits, kept in 64-bit blocks, that reads and writes
//! single bits and integers of up to 64 bits at any bit position.
//!
//! Bit `i` of the array is bit `63 - i % 64` of block `i / 64`: within a
//! block the first bit is the most significant one.

use crate::bits::{
    bit, lemma_bit_const, lemma_bit_logic, lemma_bit_shl, lemma_bit_shr, lemma_bit_single,
    lemma_bits_equal,
};
use vstd::prelude::*;

verus! {

/// The number of bits in a block.
pub const BLOCK_SIZE: usize = 64;

/// The least multiple of the block size that is not below `n`.
pub open spec fn round_up(n: int) -> int {
    (n + 63) / 64 * 64
}

/// `n` bits, all unset.
pub open spec fn zeros(n: int) -> Seq<bool> {
    Seq::new(n as nat, |q: int| false)
}

/// `s`, extended by unset bits to the next block boundary at or after `n`
/// where it is shorter than `n`.
pub open spec fn grown(s: Seq<bool>, n: int) -> Seq<bool> {
    if n <= s.len() {
        s
    } else {
        s + zeros(round_up(n) - s.len())
    }
}

/// `s`, cut or extended by unset bits to the block boundary at or after `n`.
pub open spec fn resized(s: Seq<bool>, n: int) -> Seq<bool> {
    if round_up(n) <= s.len() {
        s.subrange(0, round_up(n))
    } else {
        s + zeros(round_up(n) - s.len())
    }
}

/// `s` after the low `w` bits of `v` were or-ed into the positions
/// `[i, i + w)`, the most significant of them first.
pub open spec fn with_slice(s: Seq<bool>, i: int, w: int, v: u64) -> Seq<bool> {
    Seq::new(
        s.len(),
        |q: int|
            if i <= q < i + w {
                s[q] || bit(v, i + w - 1 - q)
            } else {
                s[q]
            },
    )
}

/// `v` is the integer that the `w` bits of `s` from position `i` spell, the
/// most significant first.
pub open spec fn slice_is(s: Seq<bool>, i: int, w: int, v: u64) -> bool {
    forall|t: int| 0 <= t < 64 ==> #[trigger] bit(v, t) == (t < w && s[i + w - 1 - t])
}

/// The bits that a sequence of blocks holds.
pub open spec fn bits_of(blocks: Seq<u64>) -> Seq<bool> {
    Seq::new((blocks.len() * 64) as nat, |q: int| bit(blocks[q / 64], 63 - q % 64))
}

/// The text of a bit array: for every block a line of its 64 bits, as the
/// digits `0` and `1`.
pub open spec fn binary_text(s: Seq<bool>) -> Seq<char> {
    Seq::new(
        (s.len() / 64 * 65) as nat,
        |i: int|
            if i % 65 == 64 {
                '\n'
            } else if s[i / 65 * 64 + i % 65] {
                '1'
            } else {
                '0'
            },
    )
}

/// `String::push` of the standard library: appends `c` to `text`.
#[verifier::external_body]
fn push_char(text: &mut String, c: char)
    ensures
        final(text)@ == old(text)@.push(c),
{
    text.push(c);
}

/// A slice spells one integer only.
pub proof fn lemma_slice_unique(s: Seq<bool>, i: int, w: int, a: u64, b: u64)
    requires
        slice_is(s, i, w, a),
        slice_is(s, i, w, b),
    ensures
        a == b,
{
    assert forall|j: int| 0 <= j < 64 implies bit(a, j) == bit(b, j) by {
        assert(bit(a, j) == (j < w && s[i + w - 1 - j]));
        assert(bit(b, j) == (j < w && s[i + w - 1 - j]));
    }
    lemma_bits_equal(a, b);
}

/// What was written into unset bits is read back: after `v`, which has no
/// bits beyond its low `w`, was or-ed into `w` unset bits, they spell `v`.
pub proof fn lemma_slice_written(s: Seq<bool>, i: int, w: int, v: u64)
    requires
        0 <= i,
        0 <= w <= 64,
        i + w <= s.len(),
        forall|q: int| i <= q < i + w ==> !s[q],
        forall|t: int| w <= t < 64 ==> !bit(v, t),
    ensures
        slice_is(with_slice(s, i, w, v), i, w, v),
{
    let n = with_slice(s, i, w, v);
    assert forall|t: int| 0 <= t < 64 implies #[trigger] bit(v, t) == (t < w && n[i + w - 1 - t]) by {
        if t < w {
            assert(!s[i + w - 1 - t]);
        }
    }
}

/// A write leaves the slices that it does not overlap as they were.
pub proof fn lemma_slice_kept(s: Seq<bool>, i: int, w: int, v: u64, i2: int, w2: int, v2: u64)
    requires
        0 <= i2,
        0 <= w2 <= 64,
        i2 + w2 <= s.len(),
        i2 + w2 <= i || i + w <= i2 || w <= 0,
        slice_is(s, i2, w2, v2),
    ensures
        slice_is(with_slice(s, i, w, v), i2, w2, v2),
{
    let n = with_slice(s, i, w, v);
    assert forall|t: int| 0 <= t < 64 implies #[trigger] bit(v2, t) == (t < w2 && n[i2 + w2 - 1
        - t]) by {
        if t < w2 {
            assert(n[i2 + w2 - 1 - t] == s[i2 + w2 - 1 - t]);
        }
    }
}

/// A growable array of bits. Its view is the sequence of its bits, whose
/// length is a multiple of the block size.
#[derive(Debug)]
pub struct BitArray {
    blocks: Vec<u64>,
}

impl Clone for BitArray {
    /// Returns an array with the same bits.
    fn clone(&self) -> (copy: Self)
        ensures
            copy@ == self@,
    {
        let blocks = self.blocks.clone();
        assert(blocks@ =~= self.blocks@);
        BitArray { blocks }
    }
}

impl View for BitArray {
    type V = Seq<bool>;

    closed spec fn view(&self) -> Seq<bool> {
        bits_of(self.blocks@)
    }
}

impl BitArray {
    /// The array holds whole blocks, and its size in bits fits in `usize`.
    pub open spec fn inv(&self) -> bool {
        &&& self@.len() % 64 == 0
        &&& self@.len() <= usize::MAX
    }

    /// Returns a zero-cleared bit array that holds at least `size` bits.
    pub fn new(size: usize) -> (a: BitArray)
        requires
            size <= usize::MAX - 63,
        ensures
            a.inv(),
            a@ == zeros(round_up(size as int)),
    {
        let mut a = BitArray { blocks: Vec::new() };
        assert(a@ =~= zeros(0));
        a.resize(size);
        assert(a@ =~= zeros(round_up(size as int)));
        a
    }

    /// Returns a zero-cleared bit array that holds at least `len` words of
    /// `word_size` bits.
    pub fn with_word_size(word_size: usize, len: usize) -> (a: BitArray)
        requires
            word_size * len <= usize::MAX - 63,
        ensures
            a.inv(),
            a@ == zeros(round_up(word_size * len)),
    {
        BitArray::new(word_size * len)
    }

    /// Returns the size of the array in bytes.
    pub fn size(&self) -> (n: usize)
        requires
            self.inv(),
        ensures
            n == self@.len() / 8,
    {
        8 * self.blocks.len()
    }

    /// Returns the size of the array in bits.
    pub fn size_bits(&self) -> (n: usize)
        requires
            self.inv(),
        ensures
            n == self@.len(),
    {
        BLOCK_SIZE * self.blocks.len()
    }

    /// Resizes the array to the blocks that `new_size` bits take; the bits
    /// that stay keep their values and new bits are unset.
    pub fn resize(&mut self, new_size: usize)
        requires
            old(self).inv(),
            new_size <= usize::MAX - 63,
        ensures
            final(self).inv(),
            final(self)@ == resized(old(self)@, new_size as int),
    {
        let n_blocks = (new_size + (BLOCK_SIZE - 1)) / BLOCK_SIZE;
        if n_blocks <= self.blocks.len() {
            self.blocks.truncate(n_blocks);
        } else {
            while self.blocks.len() < n_blocks
                invariant
                    old(self).blocks@.len() <= self.blocks@.len() <= n_blocks,
                    forall|k: int|
                        0 <= k < old(self).blocks@.len() ==> self.blocks@[k] == old(
                            self,
                        ).blocks@[k],
                    forall|k: int|
                        old(self).blocks@.len() <= k < self.blocks@.len() ==> self.blocks@[k] == 0,
                decreases n_blocks - self.blocks@.len(),
            {
                self.blocks.push(0);
            }
        }
        proof {
            lemma_bit_const();
            assert(self@ =~= resized(old(self)@, new_size as int));
        }
    }

    /// Sets the bit at position `i` to `b`, after growing the array to hold
    /// it where it does not.
    pub fn set_bit(&mut self, i: usize, b: bool)
        requires
            old(self).inv(),
            i <= usize::MAX - 64,
        ensures
            final(self).inv(),
            final(self)@ == grown(old(self)@, i + 1).update(i as int, b),
    {
        if i / BLOCK_SIZE >= self.blocks.len() {
            self.resize(i + 1);
        }
        let k = i / BLOCK_SIZE;
        let p = i % BLOCK_SIZE;
        let mask: u64 = 1u64 << ((BLOCK_SIZE - p - 1) as u64);
        let block = self.blocks[k];
        let changed = if b {
            block | mask
        } else {
            block & !mask
        };
        let ghost before = self@;
        self.blocks.set(k, changed);
        proof {
            lemma_bit_single((63 - p) as u64);
            lemma_bit_logic(block, mask);
            lemma_bit_logic(block, !mask);
            lemma_bit_logic(mask, mask);
            assert(before == grown(old(self)@, i + 1));
            assert(self@ =~= before.update(i as int, b));
        }
    }

    /// Gets the bit at position `i`.
    pub fn get_bit(&self, i: usize) -> (b: bool)
        requires
            i < self@.len(),
        ensures
            b == self@[i as int],
    {
        let k = i / BLOCK_SIZE;
        let p = i % BLOCK_SIZE;
        let shifted = self.blocks[k] << (p as u64);
        proof {
            lemma_bit_shl(self.blocks@[k as int], p as u64);
            assert(((shifted >> 63) == 1) == ((shifted >> 63) & 1 == 1)) by (bit_vector);
            assert(bit(shifted, 63) == bit(self.blocks@[k as int], 63 - p));
            assert(self@[i as int] == bit(self.blocks@[k as int], 63 - p));
        }
        (shifted >> 63) == 1
    }

    /// Ors the low `slice_size` bits of `slice` into the positions
    /// `[i, i + slice_size)`, the most significant of them first, after
    /// growing the array to hold them where it does not. Into unset bits
    /// this writes the integer.
    pub fn set_slice(&mut self, i: usize, slice_size: usize, slice: u64)
        requires
            old(self).inv(),
            slice_size <= 64,
            i + slice_size <= usize::MAX - 63,
        ensures
            final(self).inv(),
            slice_size == 0 ==> final(self)@ == old(self)@,
            slice_size > 0 ==> final(self)@ == with_slice(
                grown(old(self)@, i + slice_size),
                i as int,
                slice_size as int,
                slice,
            ),
    {
        if slice_size == 0 {
            return ;
        }
        if (i + slice_size + (BLOCK_SIZE - 1)) / BLOCK_SIZE > self.blocks.len() {
            self.resize(i + slice_size);
        }
        let ghost before = self@;
        assert(before == grown(old(self)@, i + slice_size));
        let k = i / BLOCK_SIZE;
        let p = i % BLOCK_SIZE;
        let end = p + slice_size;
        let low = slice & (0xffff_ffff_ffff_ffffu64 >> ((BLOCK_SIZE - slice_size) as u64));
        proof {
            lemma_bit_const();
            lemma_bit_shr(0xffff_ffff_ffff_ffffu64, (64 - slice_size) as u64);
            lemma_bit_logic(slice, 0xffff_ffff_ffff_ffffu64 >> ((64 - slice_size) as u64));
            assert forall|j: int| 0 <= j < 64 implies #[trigger] bit(low, j) == (j < slice_size
                && bit(slice, j)) by {}
        }
        if end <= BLOCK_SIZE {
            let mask = low << ((BLOCK_SIZE - end) as u64);
            let block = self.blocks[k];
            self.blocks.set(k, block | mask);
            proof {
                lemma_bit_shl(low, (64 - end) as u64);
                lemma_bit_logic(block, mask);
                assert forall|q: int| 0 <= q < before.len() implies self@[q] == with_slice(
                    before,
                    i as int,
                    slice_size as int,
                    slice,
                )[q] by {
                    let j = 63 - q % 64;
                    if q / 64 == k {
                        assert(bit(block | mask, j) == (bit(block, j) || bit(mask, j)));
                        assert(bit(mask, j) == (j >= 64 - end && bit(low, j - (64 - end))));
                    }
                }
                assert(self@ =~= with_slice(before, i as int, slice_size as int, slice));
            }
        } else {
            let excess = end - BLOCK_SIZE;
            let head = low >> (excess as u64);
            let tail = low << ((BLOCK_SIZE - excess) as u64);
            let first = self.blocks[k];
            let second = self.blocks[k + 1];
            self.blocks.set(k, first | head);
            self.blocks.set(k + 1, second | tail);
            proof {
                lemma_bit_shr(low, excess as u64);
                lemma_bit_shl(low, (64 - excess) as u64);
                lemma_bit_logic(first, head);
                lemma_bit_logic(second, tail);
                assert forall|q: int| 0 <= q < before.len() implies self@[q] == with_slice(
                    before,
                    i as int,
                    slice_size as int,
                    slice,
                )[q] by {
                    let j = 63 - q % 64;
                    if q / 64 == k {
                        assert(bit(first | head, j) == (bit(first, j) || bit(head, j)));
                        assert(bit(head, j) == (j + excess < 64 && bit(low, j + excess)));
                    } else if q / 64 == k + 1 {
                        assert(bit(second | tail, j) == (bit(second, j) || bit(tail, j)));
                        assert(bit(tail, j) == (j >= 64 - excess && bit(low, j - (64 - excess))));
                    }
                }
                assert(self@ =~= with_slice(before, i as int, slice_size as int, slice));
            }
        }
    }

    /// Ors `word` into the `i`-th word of `word_size` bits.
    pub fn set_word(&mut self, i: usize, word_size: usize, word: u64)
        requires
            old(self).inv(),
            word_size <= 64,
            i * word_size + word_size <= usize::MAX - 63,
        ensures
            final(self).inv(),
            word_size == 0 ==> final(self)@ == old(self)@,
            word_size > 0 ==> final(self)@ == with_slice(
                grown(old(self)@, i * word_size + word_size),
                i * word_size,
                word_size as int,
                word,
            ),
    {
        self.set_slice(i * word_size, word_size, word);
    }

    /// Gets the integer that the `slice_size` bits from position `i` spell,
    /// the most significant first.
    pub fn get_slice(&self, i: usize, slice_size: usize) -> (v: u64)
        requires
            slice_size <= 64,
            i + slice_size <= self@.len(),
        ensures
            slice_is(self@, i as int, slice_size as int, v),
    {
        if slice_size == 0 {
            proof {
                lemma_bit_const();
            }
            return 0;
        }
        let k = i / BLOCK_SIZE;
        let p = i % BLOCK_SIZE;
        let end = p + slice_size;
        let first = self.blocks[k];
        let kept = first & (0xffff_ffff_ffff_ffffu64 >> (p as u64));
        proof {
            lemma_bit_const();
            lemma_bit_shr(0xffff_ffff_ffff_ffffu64, p as u64);
            lemma_bit_logic(first, 0xffff_ffff_ffff_ffffu64 >> (p as u64));
            assert forall|j: int| 0 <= j < 64 implies #[trigger] bit(kept, j) == (j < 64 - p
                && bit(first, j)) by {}
        }
        if end <= BLOCK_SIZE {
            let v = kept >> ((BLOCK_SIZE - end) as u64);
            proof {
                lemma_bit_shr(kept, (64 - end) as u64);
                assert forall|t: int| 0 <= t < 64 implies #[trigger] bit(v, t) == (t < slice_size
                    && self@[i + slice_size - 1 - t]) by {
                    assert(bit(v, t) == (t + (64 - end) < 64 && bit(kept, t + (64 - end))));
                    if t < slice_size {
                        let q = i + slice_size - 1 - t;
                        assert(q / 64 == k && 63 - q % 64 == t + (64 - end));
                    }
                }
            }
            v
        } else {
            let excess = end - BLOCK_SIZE;
            let second = self.blocks[k + 1];
            let head = kept << (excess as u64);
            let tail = second >> ((BLOCK_SIZE - excess) as u64);
            let v = head | tail;
            proof {
                lemma_bit_shl(kept, excess as u64);
                lemma_bit_shr(second, (64 - excess) as u64);
                lemma_bit_logic(head, tail);
                assert forall|t: int| 0 <= t < 64 implies #[trigger] bit(v, t) == (t < slice_size
                    && self@[i + slice_size - 1 - t]) by {
                    assert(bit(v, t) == (bit(head, t) || bit(tail, t)));
                    assert(bit(head, t) == (t >= excess && bit(kept, t - excess)));
                    assert(bit(tail, t) == (t + (64 - excess) < 64 && bit(
                        second,
                        t + (64 - excess),
                    )));
                    if t < slice_size {
                        let q = i + slice_size - 1 - t;
                        if t < excess {
                            assert(q / 64 == k + 1 && 63 - q % 64 == t + (64 - excess));
                        } else {
                            assert(q / 64 == k && 63 - q % 64 == t - excess);
                        }
                    }
                }
            }
            v
        }
    }

    /// Returns the text of the array: its blocks, one on each line, as
    /// binary numbers of 64 digits.
    pub fn binary_string(&self) -> (text: String)
        requires
            self.inv(),
        ensures
            text@ == binary_text(self@),
    {
        let mut text = String::new();
        let n = self.size_bits();
        let mut i: usize = 0;
        while i < n
            invariant
                self.inv(),
                n == self@.len(),
                i <= n,
                i % 64 == 0,
                text@.len() == i / 64 * 65,
                forall|t: int| 0 <= t < text@.len() ==> #[trigger] text@[t] == binary_text(self@)[t],
            decreases n - i,
        {
            let ghost start = text@.len() as int;
            let mut p: usize = 0;
            while p < 64
                invariant
                    self.inv(),
                    n == self@.len(),
                    i < n,
                    i % 64 == 0,
                    p <= 64,
                    start == i / 64 * 65,
                    text@.len() == start + p,
                    forall|t: int|
                        0 <= t < text@.len() ==> #[trigger] text@[t] == binary_text(self@)[t],
                decreases 64 - p,
            {
                let digit = if self.get_bit(i + p) {
                    '1'
                } else {
                    '0'
                };
                proof {
                    let t = start + p;
                    assert(t % 65 == p && t / 65 == i / 64);
                }
                push_char(&mut text, digit);
                p = p + 1;
            }
            proof {
                let t = start + 64;
                assert(t % 65 == 64);
            }
            push_char(&mut text, '\n');
            i = i + 64;
        }
        assert(text@ =~= binary_text(self@));
        text
    }

    /// Gets the `i`-th word of `word_size` bits.
    pub fn get_word(&self, i: usize, word_size: usize) -> (v: u64)
        requires
            self.inv(),
            word_size <= 64,
            i * word_size + word_size <= self@.len(),
        ensures
            slice_is(self@, i * word_size, word_size as int, v),
    {
        self.get_slice(i * word_size, word_size)
    }
}

} // verus!
