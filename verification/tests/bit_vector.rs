use fid::{BitVector, FID};

struct Rng(u64);

impl Rng {
    fn next(&mut self) -> u64 {
        self.0 ^= self.0 << 13;
        self.0 ^= self.0 >> 7;
        self.0 ^= self.0 << 17;
        self.0
    }

    /// True with probability `percent / 100`.
    fn bit(&mut self, percent: u64) -> bool {
        (self.next() >> 11) % 100 < percent
    }
}

fn build(bits: &[bool]) -> BitVector {
    let mut bv = BitVector::new();
    for &b in bits {
        bv.push(b);
    }
    bv
}

fn random_bits(n: usize, percent: u64, seed: u64) -> Vec<bool> {
    let mut rng = Rng(seed);
    (0..n).map(|_| rng.bit(percent)).collect()
}

/// Checks every query against counting over `bits`.
fn check_all(bits: &[bool]) {
    let bv = build(bits);
    assert_eq!(bv.len(), bits.len() as u64);
    assert_eq!(bv.is_empty(), bits.is_empty());
    let mut seen = [0u64; 2];
    for (i, &b) in bits.iter().enumerate() {
        let i = i as u64;
        assert_eq!(bv.rank0(i), seen[0]);
        assert_eq!(bv.rank1(i), seen[1]);
        assert_eq!(bv.rank(b, i), seen[b as usize]);
        assert_eq!(bv.rank0(i) + bv.rank1(i), i);
        assert_eq!(bv.get(i), b);
        assert_eq!(bv.select(b, seen[b as usize]), i);
        if b {
            assert_eq!(bv.select1(seen[1]), i);
        } else {
            assert_eq!(bv.select0(seen[0]), i);
        }
        seen[b as usize] += 1;
    }
    let n = bits.len() as u64;
    assert_eq!(bv.rank0(n), seen[0]);
    assert_eq!(bv.rank1(n), seen[1]);
}

#[test]
fn empty_vector() {
    let bv = BitVector::new();
    assert_eq!(bv.len(), 0);
    assert_eq!(bv.rank0(0), 0);
    assert_eq!(bv.rank1(0), 0);
    assert_eq!(bv.rank(true, 0), 0);
    assert_eq!(bv.rank(false, 0), 0);
    assert_eq!(bv.is_empty(), true);
}

#[test]
fn eight_bits() {
    let bv = build(&[false, true, true, false, true, true, false, true]);
    assert_eq!(bv.len(), 8);
    assert_eq!(bv.is_empty(), false);
    assert_eq!(bv.rank0(5), 2);
    assert_eq!(bv.rank1(5), 3);
    assert_eq!(bv.select0(2), 6);
    assert_eq!(bv.select1(2), 4);
    assert_eq!(bv.get(0), false);
    assert_eq!(bv.get(1), true);
}

#[test]
fn sixty_four_alternating_bits() {
    let bits: Vec<bool> = (0..64).map(|i| i % 2 == 1).collect();
    let bv = build(&bits);
    assert_eq!(bv.rank1(64), 32);
    assert_eq!(bv.select1(0), 1);
    assert_eq!(bv.select0(31), 62);
    check_all(&bits);
}

#[test]
fn one_block_of_zeros() {
    let bits = vec![false; 64];
    let bv = build(&bits);
    assert_eq!(bv.len(), 64);
    assert_eq!(bv.rank1(64), 0);
    assert_eq!(bv.rank0(64), 64);
    assert_eq!(bv.select0(63), 63);
    check_all(&bits);
}

#[test]
fn one_block_of_ones() {
    let bits = vec![true; 64];
    let bv = build(&bits);
    assert_eq!(bv.len(), 64);
    assert_eq!(bv.rank1(64), 64);
    assert_eq!(bv.rank0(64), 0);
    assert_eq!(bv.select1(63), 63);
    check_all(&bits);
}

#[test]
fn lengths_that_are_no_multiple_of_the_block() {
    for n in [1usize, 7, 63, 65, 100, 127, 129, 200] {
        check_all(&random_bits(n, 50, n as u64 + 1));
        check_all(&random_bits(n, 3, n as u64 + 2));
        check_all(&random_bits(n, 97, n as u64 + 3));
    }
}

#[test]
fn blocks_of_each_edge_class() {
    for ones in [0usize, 1, 32, 63, 64] {
        let mut bits = Vec::new();
        for block in 0..3 {
            for q in 0..64 {
                bits.push(match ones {
                    0 => false,
                    1 => q == 17 + block,
                    32 => q % 2 == block % 2,
                    63 => q != 40 + block,
                    _ => true,
                });
            }
        }
        bits.extend([true, false, true]);
        check_all(&bits);
    }
}

#[test]
fn a_large_block_of_ones() {
    let bits = vec![true; 4096 + 10];
    let bv = build(&bits);
    assert_eq!(bv.rank1(4096), 4096);
    assert_eq!(bv.rank0(4096), 0);
    assert_eq!(bv.select1(4095), 4095);
    assert_eq!(bv.select1(4100), 4100);
    assert_eq!(bv.get(4000), true);
    // two large-block entries, 64 entries of 12 bits in each small-block
    // directory, 64 classes of 7 bits, and no code at all
    assert_eq!(bv.size_bytes(), 40 + 16 + 96 + 96 + 56);
    check_all(&bits);
}

#[test]
fn a_large_block_of_balanced_blocks() {
    let bits: Vec<bool> = (0..4096).map(|i| (i / 3) % 2 == 0).collect();
    let bv = build(&bits);
    assert_eq!(bv.rank1(4096), bits.iter().filter(|&&b| b).count() as u64);
    // every block is stored as it is, in 64 bits
    assert_eq!(bv.size_bytes(), 40 + 16 + 96 + 96 + 56 + 512);
    check_all(&bits);
}

#[test]
fn several_large_blocks() {
    let mut bits = random_bits(3 * 4096 + 77, 50, 11);
    for b in bits[4096..8192].iter_mut() {
        *b = false;
    }
    check_all(&bits);
    let mut bits = random_bits(2 * 4096 + 64, 2, 12);
    for b in bits[0..5000].iter_mut() {
        *b = true;
    }
    check_all(&bits);
}

#[test]
fn sparse_and_dense_vectors() {
    check_all(&random_bits(10_000, 1, 21));
    check_all(&random_bits(10_000, 10, 22));
    check_all(&random_bits(10_000, 90, 23));
    check_all(&random_bits(10_000, 99, 24));
}

#[test]
fn a_million_random_bits() {
    let bits = random_bits(1_000_000, 50, 0x2545_f491_4f6c_dd1d);
    let bv = build(&bits);
    let mut prefix = vec![0u64; bits.len() + 1];
    for (i, &b) in bits.iter().enumerate() {
        prefix[i + 1] = prefix[i] + b as u64;
    }
    let mut rng = Rng(42);
    for _ in 0..10_000 {
        let i = (rng.next() % (bits.len() as u64 + 1)) as usize;
        assert_eq!(bv.rank1(i as u64), prefix[i]);
    }
    let ones = prefix[bits.len()];
    for _ in 0..10_000 {
        let r = rng.next() % ones;
        let pos = bv.select1(r);
        assert_eq!(prefix[pos as usize], r);
        assert_eq!(bits[pos as usize], true);
    }
}

#[test]
fn dense_vectors_are_compressed() {
    let n = 100_000;
    let bv = build(&random_bits(n, 99, 5));
    let rate = (bv.size_bytes() * 8) as f64 / n as f64;
    assert!(rate < 0.75, "{} bits for each bit", rate);
}

#[test]
fn size_of_the_empty_vector() {
    assert_eq!(BitVector::new().size_bytes(), 40);
}

#[test]
fn size_after_one_block() {
    let bv = build(&vec![true; 64]);
    assert_eq!(bv.size_bytes(), 40 + 16 + 3 * 8);
    let bv = build(&vec![true; 63]);
    assert_eq!(bv.size_bytes(), 40);
}

#[test]
fn select_is_increasing_and_inverts_rank() {
    let bits = random_bits(5000, 30, 77);
    let bv = build(&bits);
    for b in [false, true] {
        let count = bv.rank(b, bv.len());
        let mut last = None;
        for r in 0..count {
            let pos = bv.select(b, r);
            assert_eq!(bv.rank(b, pos), r);
            assert_eq!(bv.rank(b, pos + 1), r + 1);
            assert_eq!(bv.get(pos), b);
            if let Some(before) = last {
                assert!(before < pos);
            }
            last = Some(pos);
        }
    }
}

#[test]
fn rank_does_not_decrease() {
    let bits = random_bits(3000, 60, 78);
    let bv = build(&bits);
    for i in 0..bv.len() {
        assert!(bv.rank1(i) <= bv.rank1(i + 1));
        assert!(bv.rank0(i) <= bv.rank0(i + 1));
    }
}

#[test]
fn clone_holds_the_same_bits() {
    let bits = random_bits(300, 40, 9);
    let mut bv = build(&bits);
    let copy = bv.clone();
    bv.push(true);
    assert_eq!(copy.len(), 300);
    assert_eq!(bv.len(), 301);
    for (i, &b) in bits.iter().enumerate() {
        assert_eq!(copy.get(i as u64), b);
    }
    assert_eq!(copy.rank1(300), bv.rank1(300));
}
