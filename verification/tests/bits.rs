//! The bit-stream view over a byte buffer.

use chirp::bits::bit_at;
use chirp::BitSequence;

#[test]
fn bit_at_reads_lsb_first() {
    let data = [0b1010_0101u8];
    let expected = [true, false, true, false, false, true, false, true];
    for (i, &want) in expected.iter().enumerate() {
        assert_eq!(bit_at(&data, i), want, "bit {}", i);
    }
}

#[test]
fn bit_at_crosses_byte_boundaries_in_buffer_order() {
    let data = [0x01u8, 0x80u8];
    assert!(bit_at(&data, 0));
    for i in 1..15 {
        assert!(!bit_at(&data, i), "bit {}", i);
    }
    assert!(bit_at(&data, 15));
}

#[test]
fn bit_sequence_drains_all_bits_then_ends() {
    let data = [0b0000_0011u8, 0xffu8];
    let mut bits = BitSequence::new(&data);
    assert_eq!(bits.remaining(), 16);
    let mut seen = Vec::new();
    while let Some(b) = bits.next() {
        seen.push(b);
    }
    assert_eq!(seen.len(), 16);
    assert_eq!(&seen[..2], &[true, true]);
    assert!(seen[2..8].iter().all(|&b| !b));
    assert!(seen[8..].iter().all(|&b| b));
    assert_eq!(bits.remaining(), 0);
    assert_eq!(bits.next(), None);
    assert_eq!(bits.next(), None);
}

#[test]
fn bit_sequence_over_empty_buffer_is_exhausted() {
    let data: [u8; 0] = [];
    let mut bits = BitSequence::new(&data);
    assert_eq!(bits.remaining(), 0);
    assert_eq!(bits.next(), None);
}
