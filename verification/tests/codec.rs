use fid::bits::{count_ones, count_ones_top, test_bit, with_bit};
use fid::codec::{block_rank, block_select, decode, encode, word_select};
use fid::tables::{code_size, combination, MAX_CODE_BITS, RAW_BITS};

struct Rng(u64);

impl Rng {
    fn next(&mut self) -> u64 {
        self.0 ^= self.0 << 13;
        self.0 ^= self.0 >> 7;
        self.0 ^= self.0 << 17;
        self.0
    }

    /// A word with about `ones` set bits.
    fn sparse(&mut self, ones: usize) -> u64 {
        let mut w = 0u64;
        for _ in 0..ones {
            w |= 1u64 << (self.next() % 64);
        }
        w
    }
}

fn sample_words() -> Vec<u64> {
    let mut rng = Rng(0x9e37_79b9_7f4a_7c15);
    let mut words = vec![0, 1, 2, 3, 1 << 63, !0, !1, !(1 << 63), 0x5555_5555_5555_5555, 0xffff];
    for ones in 0..=16 {
        for _ in 0..40 {
            let w = rng.sparse(ones);
            words.push(w);
            words.push(!w);
        }
    }
    for _ in 0..200 {
        words.push(rng.next());
    }
    words
}

fn naive_rank(w: u64, p: usize) -> usize {
    (0..p).filter(|&q| (w >> (63 - q)) & 1 == 1).count()
}

#[test]
fn combination_values() {
    assert_eq!(combination(0, 0), 1);
    assert_eq!(combination(0, 1), 0);
    assert_eq!(combination(5, 2), 10);
    assert_eq!(combination(10, 11), 0);
    assert_eq!(combination(63, 1), 63);
    assert_eq!(combination(64, 1), 64);
    assert_eq!(combination(64, 2), 2016);
    assert_eq!(combination(64, 64), 1);
    assert_eq!(combination(64, 32), 1832624140942590534);
    assert_eq!(combination(64, 15), 159518999862720);
}

#[test]
fn combination_follows_pascal() {
    for n in 1..=64 {
        assert_eq!(combination(n, 0), 1);
        for k in 1..=64 {
            assert_eq!(combination(n, k), combination(n - 1, k - 1) + combination(n - 1, k));
        }
    }
}

#[test]
fn code_size_values() {
    assert_eq!(code_size(0), 0);
    assert_eq!(code_size(64), 0);
    assert_eq!(code_size(1), 6);
    assert_eq!(code_size(63), 6);
    assert_eq!(code_size(2), 11);
    assert_eq!(code_size(15), 48);
    assert_eq!(code_size(49), 48);
    assert_eq!(code_size(16), 64);
    assert_eq!(code_size(32), 64);
    assert_eq!(code_size(48), 64);
}

#[test]
fn code_size_is_the_ceiling_of_the_logarithm() {
    for k in 0..=64usize {
        let c = combination(64, k) as u128;
        let mut natural = 0;
        while (1u128 << natural) < c {
            natural += 1;
        }
        let expected = if natural <= MAX_CODE_BITS { natural } else { RAW_BITS };
        assert_eq!(code_size(k), expected);
    }
}

#[test]
fn bit_helpers() {
    assert_eq!(count_ones(0), 0);
    assert_eq!(count_ones(!0), 64);
    assert_eq!(count_ones(0xf0f0), 8);
    assert_eq!(count_ones_top(1u64 << 63, 1), 1);
    assert_eq!(count_ones_top(1u64 << 63, 0), 0);
    assert_eq!(count_ones_top(0xff, 56), 0);
    assert_eq!(count_ones_top(0xff, 60), 4);
    assert_eq!(test_bit(4, 2), true);
    assert_eq!(test_bit(4, 3), false);
    assert_eq!(with_bit(0, 63), 1u64 << 63);
    assert_eq!(with_bit(5, 0), 5);
}

#[test]
fn encode_edge_classes() {
    assert_eq!(encode(0), (0, 0));
    assert_eq!(encode(!0), (64, 0));
    assert_eq!(encode(1), (1, 0));
    assert_eq!(encode(2), (1, 1));
    assert_eq!(encode(1 << 63), (1, 63));
    assert_eq!(encode(0b11), (2, 0));
    assert_eq!(encode(0b101), (2, 1));
    assert_eq!(encode(0b110), (2, 2));
    assert_eq!(encode(0b1001), (2, 3));
    assert_eq!(encode(!1), (63, 63));
    assert_eq!(encode(!(1u64 << 63)), (63, 0));
}

#[test]
fn encode_stores_balanced_blocks_raw() {
    let w = 0x5555_5555_5555_5555u64;
    assert_eq!(encode(w), (32, w));
    let w = 0x0000_0000_0000_ffffu64;
    assert_eq!(encode(w), (16, w));
    assert_eq!(decode(32, 0xaaaa_aaaa_aaaa_aaaa), 0xaaaa_aaaa_aaaa_aaaa);
}

#[test]
fn decode_edge_classes() {
    assert_eq!(decode(0, 0), 0);
    assert_eq!(decode(64, 0), !0);
    assert_eq!(decode(1, 0), 1);
    assert_eq!(decode(1, 63), 1 << 63);
    assert_eq!(decode(2, 3), 0b1001);
    assert_eq!(decode(63, 63), !1);
    assert_eq!(decode(2, 2015), 0b11 << 62);
}

#[test]
fn decode_inverts_encode() {
    for w in sample_words() {
        let (k, c) = encode(w);
        assert_eq!(k, w.count_ones() as usize);
        assert_eq!(decode(k, c), w);
    }
}

#[test]
fn encode_inverts_decode() {
    let mut rng = Rng(7);
    for k in (0..=15).chain(49..=64) {
        let limit = combination(64, k);
        for c in [0, limit / 3, limit / 2, limit - 1] {
            assert_eq!(encode(decode(k, c)), (k, c));
        }
        for _ in 0..20 {
            let c = rng.next() % limit;
            assert_eq!(encode(decode(k, c)), (k, c));
        }
    }
}

#[test]
fn codes_stay_below_the_binomial() {
    for w in sample_words() {
        let (k, c) = encode(w);
        if code_size(k) != RAW_BITS {
            assert!(c < combination(64, k));
            assert!(code_size(k) == 0 && c == 0 || c >> code_size(k) == 0);
        } else {
            assert_eq!(c, w);
        }
    }
}

#[test]
fn codes_keep_the_order_of_the_blocks() {
    let mut rng = Rng(99);
    for ones in [1usize, 2, 3, 7, 15] {
        let mut words: Vec<u64> = (0..200).map(|_| rng.sparse(ones)).filter(|w| w.count_ones() as usize == ones).collect();
        words.sort();
        words.dedup();
        for pair in words.windows(2) {
            assert!(encode(pair[0]).1 < encode(pair[1]).1);
        }
    }
}

#[test]
fn block_rank_counts_the_leading_bits() {
    for w in sample_words() {
        let (k, c) = encode(w);
        for p in 0..=64 {
            assert_eq!(block_rank(k, c, p), naive_rank(w, p));
        }
    }
}

#[test]
fn block_select_finds_each_bit() {
    for w in sample_words() {
        let (k, c) = encode(w);
        let mut seen = [0usize; 2];
        for q in 0..64 {
            let b = (w >> (63 - q)) & 1 == 1;
            assert_eq!(block_select(k, c, b, seen[b as usize]), q);
            assert_eq!(word_select(w, b, seen[b as usize]), q);
            seen[b as usize] += 1;
        }
    }
}
