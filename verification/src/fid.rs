//! Rank and select over a sequence of bits: what they mean, the laws that
//! hold of them, and the capability that a structure offers which answers
//! them.

use vstd::prelude::*;

verus! {

/// The number of bits equal to `b` among the first `i` bits of `s`.
pub open spec fn rank_of(s: Seq<bool>, b: bool, i: int) -> nat
    decreases i,
{
    if i <= 0 {
        0
    } else {
        rank_of(s, b, i - 1) + if s[i - 1] == b {
            1nat
        } else {
            0nat
        }
    }
}

/// The number of bits of `s` equal to `b`.
pub open spec fn count_of(s: Seq<bool>, b: bool) -> nat {
    rank_of(s, b, s.len() as int)
}

/// `pos` is the position of the `(r + 1)`-th bit of `s` equal to `b`.
pub open spec fn selects(s: Seq<bool>, b: bool, r: nat, pos: int) -> bool {
    &&& 0 <= pos < s.len()
    &&& s[pos] == b
    &&& rank_of(s, b, pos) == r
}

/// Every bit of a prefix is a zero or a one: the two ranks add up to the
/// length of the prefix.
pub proof fn lemma_rank_sum(s: Seq<bool>, i: int)
    requires
        0 <= i,
    ensures
        rank_of(s, true, i) + rank_of(s, false, i) == i,
    decreases i,
{
    if i > 0 {
        lemma_rank_sum(s, i - 1);
    }
}

/// Rank does not decrease with the position, and grows by at most one for
/// each bit.
pub proof fn lemma_rank_monotone(s: Seq<bool>, b: bool, i: int, j: int)
    requires
        0 <= i <= j,
    ensures
        rank_of(s, b, i) <= rank_of(s, b, j) <= rank_of(s, b, i) + (j - i),
    decreases j - i,
{
    if i < j {
        lemma_rank_monotone(s, b, i, j - 1);
    }
}

/// Select inverts rank: the bit at the selected position is the one asked
/// for, `r` bits like it come before it, and `r + 1` up to and including it.
pub proof fn lemma_select_inverts_rank(s: Seq<bool>, b: bool, r: nat, pos: int)
    requires
        selects(s, b, r, pos),
    ensures
        rank_of(s, b, pos) == r,
        s[pos] == b,
        rank_of(s, b, pos + 1) == r + 1,
{
}

/// Select is strictly increasing: a later occurrence lies at a later
/// position.
pub proof fn lemma_select_increasing(s: Seq<bool>, b: bool, r1: nat, p1: int, r2: nat, p2: int)
    requires
        selects(s, b, r1, p1),
        selects(s, b, r2, p2),
        r1 < r2,
    ensures
        p1 < p2,
{
    if p2 <= p1 {
        lemma_rank_monotone(s, b, p2, p1);
    }
}

/// There is one position only that select can give.
pub proof fn lemma_select_unique(s: Seq<bool>, b: bool, r: nat, p1: int, p2: int)
    requires
        selects(s, b, r, p1),
        selects(s, b, r, p2),
    ensures
        p1 == p2,
{
    if p1 < p2 {
        lemma_rank_monotone(s, b, p1 + 1, p2);
    } else if p2 < p1 {
        lemma_rank_monotone(s, b, p2 + 1, p1);
    }
}

/// A structure that answers rank and select over the bits that it holds.
pub trait FID {
    /// The bits held.
    spec fn bits(&self) -> Seq<bool>;

    /// The structure is consistent.
    spec fn inv(&self) -> bool;

    /// The number of bits fits in 64 bits.
    proof fn lemma_len_fits(&self)
        requires
            self.inv(),
        ensures
            self.bits().len() <= u64::MAX,
    ;

    /// Returns the total number of bits.
    fn len(&self) -> (n: u64)
        requires
            self.inv(),
        ensures
            n == self.bits().len(),
    ;

    /// Returns true if the structure is empty.
    fn is_empty(&self) -> (e: bool)
        requires
            self.inv(),
        ensures
            e == (self.bits().len() == 0),
    {
        self.len() == 0
    }

    /// Computes the number of bits equal to `b` in `[0, i)`.
    fn rank(&self, b: bool, i: u64) -> (r: u64)
        requires
            self.inv(),
            i <= self.bits().len(),
        ensures
            r == rank_of(self.bits(), b, i as int),
    {
        if b {
            self.rank1(i)
        } else {
            self.rank0(i)
        }
    }

    /// Computes the number of 0s in `[0, i)`.
    fn rank0(&self, i: u64) -> (r: u64)
        requires
            self.inv(),
            i <= self.bits().len(),
        ensures
            r == rank_of(self.bits(), false, i as int),
    {
        proof {
            lemma_rank_sum(self.bits(), i as int);
        }
        i - self.rank1(i)
    }

    /// Computes the number of 1s in `[0, i)`.
    fn rank1(&self, i: u64) -> (r: u64)
        requires
            self.inv(),
            i <= self.bits().len(),
        ensures
            r == rank_of(self.bits(), true, i as int),
    ;

    /// Locates the `(r + 1)`-th bit equal to `b`, by bisection over rank.
    fn select(&self, b: bool, r: u64) -> (pos: u64)
        requires
            self.inv(),
            r < count_of(self.bits(), b),
        ensures
            selects(self.bits(), b, r as nat, pos as int),
    {
        let mut s: u64 = 0;
        let mut e: u64 = self.len();
        while e - s > 1
            invariant
                self.inv(),
                s < e <= self.bits().len(),
                rank_of(self.bits(), b, s as int) <= r < rank_of(self.bits(), b, e as int),
            decreases e - s,
        {
            let m = s + (e - s) / 2;
            let rank = self.rank(b, m);
            if r < rank {
                e = m;
            } else {
                s = m;
            }
        }
        s
    }

    /// Locates the `(r + 1)`-th 0.
    fn select0(&self, r: u64) -> (pos: u64)
        requires
            self.inv(),
            r < count_of(self.bits(), false),
        ensures
            selects(self.bits(), false, r as nat, pos as int),
    {
        self.select(false, r)
    }

    /// Locates the `(r + 1)`-th 1.
    fn select1(&self, r: u64) -> (pos: u64)
        requires
            self.inv(),
            r < count_of(self.bits(), true),
        ensures
            selects(self.bits(), true, r as nat, pos as int),
    {
        self.select(true, r)
    }

    /// Returns the `i`-th bit.
    fn get(&self, i: u64) -> (b: bool)
        requires
            self.inv(),
            i < self.bits().len(),
        ensures
            b == self.bits()[i as int],
    {
        proof {
            self.lemma_len_fits();
        }
        self.rank1(i + 1) - self.rank1(i) > 0
    }
}

} // verus!
