use bitarray::BitArray;
use std::collections::hash_map::DefaultHasher;
use std::hash::Hash;
use std::hash::Hasher;

#[test]
fn new_wraps_bytes_verbatim() {
    let array = BitArray::new([0]);
    assert_eq!(*array.bytes(), [0]);
    let array = BitArray::new([1, 2]);
    assert_eq!(*array.bytes(), [1, 2]);
}

#[test]
fn zeros_is_all_zero() {
    let array = BitArray::zeros();
    assert_eq!(array, BitArray::new([0]));
    let array = BitArray::<7>::zeros();
    assert_eq!(*array.bytes(), [0u8; 7]);
}

#[test]
fn bytes_mut_changes_content() {
    let mut array = BitArray::new([1, 2]);
    array.bytes_mut()[0] = 3;
    assert_eq!(*array.bytes(), [3, 2]);
}

#[test]
fn weight_of_zeros_is_zero() {
    assert_eq!(BitArray::<0>::zeros().weight(), 0);
    assert_eq!(BitArray::<1>::zeros().weight(), 0);
    assert_eq!(BitArray::<64>::zeros().weight(), 0);
    assert_eq!(BitArray::<600>::zeros().weight(), 0);
}

#[test]
fn weight_of_aa_is_four_per_byte() {
    let array = BitArray::new([0xAA; 83]);
    assert_eq!(array.weight(), 4 * 83);
}

#[test]
fn weight_counts_each_byte_exactly_once_at_region_boundaries() {
    // All bits set: the weight must be exactly 8 bits per byte, for lengths
    // on either side of every word-region boundary.
    assert_eq!(BitArray::<1>::new([0xFF; 1]).weight(), 8);
    assert_eq!(BitArray::<7>::new([0xFF; 7]).weight(), 8 * 7);
    assert_eq!(BitArray::<8>::new([0xFF; 8]).weight(), 8 * 8);
    assert_eq!(BitArray::<9>::new([0xFF; 9]).weight(), 8 * 9);
    assert_eq!(BitArray::<15>::new([0xFF; 15]).weight(), 8 * 15);
    assert_eq!(BitArray::<16>::new([0xFF; 16]).weight(), 8 * 16);
    assert_eq!(BitArray::<63>::new([0xFF; 63]).weight(), 8 * 63);
    assert_eq!(BitArray::<64>::new([0xFF; 64]).weight(), 8 * 64);
    assert_eq!(BitArray::<65>::new([0xFF; 65]).weight(), 8 * 65);
    assert_eq!(BitArray::<600>::new([0xFF; 600]).weight(), 8 * 600);
}

#[test]
fn weight_exact_values() {
    // 0x01 has one set bit, 0x03 has two, 0x07 has three, 0xFF has eight.
    let array = BitArray::new([0x01, 0x03, 0x07, 0xFF]);
    assert_eq!(array.weight(), 1 + 2 + 3 + 8);
    // A single set bit in the last byte of a buffer with a word region and a
    // tail region.
    let mut bytes = [0u8; 13];
    bytes[12] = 0x80;
    assert_eq!(BitArray::new(bytes).weight(), 1);
    // A single set bit in the byte right at the word/tail boundary.
    let mut bytes = [0u8; 13];
    bytes[8] = 0x01;
    assert_eq!(BitArray::new(bytes).weight(), 1);
}

#[test]
fn distance_all_bits_differ() {
    let a = BitArray::new([0xAA; 65]);
    let b = BitArray::new([0x55; 65]);
    assert_eq!(a.distance(&b), 8 * 65);
}

#[test]
fn distance_no_bits_differ() {
    let a = BitArray::new([0xAA; 65]);
    let b = BitArray::new([0xAA; 65]);
    assert_eq!(a.distance(&b), 0);
}

#[test]
fn distance_to_self_is_zero() {
    let x = BitArray::new([0x12, 0x34, 0x56, 0x78, 0x9A, 0xBC, 0xDE, 0xF0, 0x11]);
    assert_eq!(x.distance(&x), 0);
}

#[test]
fn distance_is_symmetric() {
    let a = BitArray::new([0x0F, 0xF0, 0x55, 0xAA, 0x01, 0x80, 0x00, 0xFF, 0xC3]);
    let b = BitArray::new([0xFF, 0x00, 0xAA, 0xAA, 0x81, 0x80, 0x10, 0x0F, 0x3C]);
    assert_eq!(a.distance(&b), b.distance(&a));
}

#[test]
fn distance_is_weight_of_xor() {
    let a = BitArray::new([0x0F, 0xF0, 0x55, 0xAA, 0x01, 0x80, 0x00, 0xFF, 0xC3]);
    let b = BitArray::new([0xFF, 0x00, 0xAA, 0xAA, 0x81, 0x80, 0x10, 0x0F, 0x3C]);
    let mut xored = [0u8; 9];
    let mut i: usize = 0;
    while i < 9 {
        xored[i] = a.bytes()[i] ^ b.bytes()[i];
        i += 1;
    }
    assert_eq!(a.distance(&b), BitArray::new(xored).weight());
}

#[test]
fn distance_matches_weight_sum_identity() {
    let a = BitArray::new([0x0F, 0xF0, 0x55, 0xAA, 0x01, 0x80, 0x00, 0xFF, 0xC3]);
    let b = BitArray::new([0xFF, 0x00, 0xAA, 0xAA, 0x81, 0x80, 0x10, 0x0F, 0x3C]);
    let mut anded = [0u8; 9];
    let mut i: usize = 0;
    while i < 9 {
        anded[i] = a.bytes()[i] & b.bytes()[i];
        i += 1;
    }
    let and_weight = BitArray::new(anded).weight();
    assert_eq!(a.distance(&b), a.weight() + b.weight() - 2 * and_weight);
}

#[test]
fn equality_is_bytewise() {
    let a = BitArray::new([1, 2, 3]);
    let b = BitArray::new([1, 2, 3]);
    let c = BitArray::new([1, 2, 4]);
    assert_eq!(a, b);
    assert_ne!(a, c);
}

#[test]
fn equal_arrays_hash_equally() {
    let x = BitArray::new([7, 0, 255, 42]);
    let y = BitArray::new([7, 0, 255, 42]);
    assert_eq!(x, y);
    let mut hx = DefaultHasher::new();
    x.hash(&mut hx);
    let mut hy = DefaultHasher::new();
    y.hash(&mut hy);
    assert_eq!(hx.finish(), hy.finish());
}
