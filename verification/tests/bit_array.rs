use fid::bit_array::BLOCK_SIZE;
use fid::BitArray;

fn block_count(ba: &BitArray) -> usize {
    ba.size_bits() / BLOCK_SIZE
}

#[test]
fn set_word_get_word() {
    let word_size = 7;
    let mut ba = BitArray::with_word_size(word_size, 128);
    for i in 0..128 {
        ba.set_word(i, word_size, i as u64);
    }
    for i in 0..128 {
        assert_eq!(ba.get_word(i, word_size), i as u64);
    }
}

#[test]
fn set_bit_get_word() {
    let points = &[3, 5, 6, 7];
    let mut ba = BitArray::new(8);
    for &p in points {
        ba.set_bit(p, true);
    }
    assert_eq!(ba.get_word(0, 4), 1);
    assert_eq!(ba.get_word(1, 4), 7);
}

#[test]
fn set_bit_get_bit() {
    let mut ba = BitArray::new(256);
    let points = &[2, 3, 5, 8, 13, 21, 34, 55, 89, 144];

    for &p in points {
        ba.set_bit(p, true);
    }

    let mut j = 0;
    for i in 0..145 {
        if i == points[j] {
            assert_eq!(ba.get_bit(i), true);
            j += 1;
        } else {
            assert_eq!(ba.get_bit(i), false);
        }
    }
}

#[test]
fn extend_with_resize() {
    let mut ba = BitArray::new(BLOCK_SIZE * 4);
    assert_eq!(block_count(&ba), 4);
    ba.resize(BLOCK_SIZE * 5);
    assert_eq!(block_count(&ba), 5);
    ba.resize(BLOCK_SIZE * 6 + 7);
    assert_eq!(block_count(&ba), 7);
}

#[test]
fn shrink_with_resize() {
    let mut ba = BitArray::new(BLOCK_SIZE * 4);
    assert_eq!(block_count(&ba), 4);
    ba.resize(BLOCK_SIZE * 3);
    assert_eq!(block_count(&ba), 3);
    ba.resize(BLOCK_SIZE + 3);
    assert_eq!(block_count(&ba), 2);
}

#[test]
fn new_rounds_up_to_whole_blocks() {
    assert_eq!(BitArray::new(0).size_bits(), 0);
    assert_eq!(BitArray::new(1).size_bits(), 64);
    assert_eq!(BitArray::new(64).size_bits(), 64);
    assert_eq!(BitArray::new(65).size_bits(), 128);
    assert_eq!(BitArray::new(65).size(), 16);
    assert_eq!(BitArray::with_word_size(12, 11).size_bits(), 192);
}

#[test]
fn new_array_is_cleared() {
    let ba = BitArray::new(130);
    for i in 0..ba.size_bits() {
        assert_eq!(ba.get_bit(i), false);
    }
}

#[test]
fn set_bit_grows_the_array() {
    let mut ba = BitArray::new(8);
    ba.set_bit(3, true);
    assert_eq!(ba.get_bit(3), true);
    assert_eq!(ba.get_bit(4), false);
    ba.set_bit(256, true);
    assert_eq!(ba.get_bit(256), true);
    assert_eq!(ba.size_bits(), 320);
    assert_eq!(ba.get_bit(3), true);
    assert_eq!(ba.get_bit(255), false);
}

#[test]
fn set_bit_clears_a_bit() {
    let mut ba = BitArray::new(64);
    ba.set_bit(10, true);
    ba.set_bit(11, true);
    ba.set_bit(10, false);
    assert_eq!(ba.get_bit(10), false);
    assert_eq!(ba.get_bit(11), true);
}

#[test]
fn bits_are_big_endian_within_a_block() {
    let mut ba = BitArray::new(128);
    ba.set_bit(0, true);
    assert_eq!(ba.get_slice(0, 64), 1u64 << 63);
    ba.set_bit(63, true);
    assert_eq!(ba.get_slice(0, 64), (1u64 << 63) | 1);
    ba.set_bit(64, true);
    assert_eq!(ba.get_slice(64, 64), 1u64 << 63);
    assert_eq!(ba.get_slice(63, 2), 0b11);
}

#[test]
fn set_word_doc_example() {
    let mut ba = BitArray::new(128);
    ba.set_word(0, 12, 0b0101_1010_1100);
    assert_eq!(ba.get_word(0, 12), 0b0101_1010_1100);
    ba.set_word(5, 12, 0b1010_0101_0011);
    assert_eq!(ba.get_word(5, 12), 0b1010_0101_0011);
    assert_eq!(ba.get_word(0, 12), 0b0101_1010_1100);
}

#[test]
fn slice_across_a_block_boundary() {
    let mut ba = BitArray::new(0);
    ba.set_slice(60, 10, 0b11_0110_1001);
    assert_eq!(ba.size_bits(), 128);
    assert_eq!(ba.get_slice(60, 10), 0b11_0110_1001);
    assert_eq!(ba.get_slice(60, 4), 0b1101);
    assert_eq!(ba.get_slice(64, 6), 0b10_1001);
    assert_eq!(ba.get_bit(59), false);
    assert_eq!(ba.get_bit(70), false);
}

#[test]
fn slice_of_full_width() {
    let mut ba = BitArray::new(0);
    let v = 0xdead_beef_0123_4567u64;
    ba.set_slice(0, 64, v);
    ba.set_slice(64 + 13, 64, !v);
    assert_eq!(ba.get_slice(0, 64), v);
    assert_eq!(ba.get_slice(77, 64), !v);
    assert_eq!(ba.get_slice(64, 13), 0);
}

#[test]
fn slice_of_zero_width() {
    let mut ba = BitArray::new(0);
    ba.set_slice(1000, 0, 0xffff);
    assert_eq!(ba.size_bits(), 0);
    let mut ba = BitArray::new(64);
    ba.set_slice(64, 0, 1);
    assert_eq!(ba.size_bits(), 64);
    assert_eq!(ba.get_slice(64, 0), 0);
    assert_eq!(ba.get_slice(3, 0), 0);
}

#[test]
fn set_slice_writes_the_low_bits_only() {
    let mut ba = BitArray::new(64);
    ba.set_slice(8, 4, 0xfff5);
    assert_eq!(ba.get_slice(0, 16), 0x0050);
    let mut ba = BitArray::new(0);
    ba.set_slice(62, 4, 0xf9);
    assert_eq!(ba.get_slice(56, 16), 0x0240);
}

#[test]
fn set_slice_ors_into_what_is_there() {
    let mut ba = BitArray::new(64);
    ba.set_slice(0, 8, 0b1010_0000);
    ba.set_slice(0, 8, 0b0000_0101);
    assert_eq!(ba.get_slice(0, 8), 0b1010_0101);
}

#[test]
fn resize_keeps_bits_and_clears_new_ones() {
    let mut ba = BitArray::new(128);
    ba.set_bit(5, true);
    ba.set_bit(100, true);
    ba.resize(64);
    assert_eq!(ba.size_bits(), 64);
    assert_eq!(ba.get_bit(5), true);
    ba.resize(128);
    assert_eq!(ba.get_bit(5), true);
    assert_eq!(ba.get_bit(100), false);
}

#[test]
fn clone_is_independent() {
    let mut ba = BitArray::new(64);
    ba.set_bit(1, true);
    let copy = ba.clone();
    ba.set_bit(2, true);
    assert_eq!(copy.get_bit(1), true);
    assert_eq!(copy.get_bit(2), false);
}

#[test]
fn binary_string_of_the_blocks() {
    assert_eq!(BitArray::new(0).binary_string(), "");
    let mut ba = BitArray::new(128);
    ba.set_bit(0, true);
    ba.set_bit(62, true);
    ba.set_bit(127, true);
    let first = format!("1{}10\n", "0".repeat(61));
    let second = format!("{}1\n", "0".repeat(63));
    assert_eq!(ba.binary_string(), format!("{}{}", first, second));
    ba.set_slice(64, 8, 0b1010_0101);
    assert!(ba.binary_string().ends_with(&format!("\n10100101{}1\n", "0".repeat(55))));
}
