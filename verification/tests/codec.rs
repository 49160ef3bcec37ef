use cai_cyclic::decode;
use cai_cyclic::encode;
use cai_cyclic::rotate_17;

#[test]
fn test_encode() {
    assert_eq!(encode(0b000000000), 0b000000000_00000000);
    assert_eq!(encode(0b111111111), 0b111111111_11111111);
    assert_eq!(encode(0b100000001), 0b100000001_10100101);
    assert_eq!(encode(0b000001001), 0b000001001_11001000);
    assert_eq!(encode(0b000001011), 0b000001011_10111010);
    assert_eq!(encode(0b000001010), 0b000001010_10000011);
    assert_eq!(encode(0b000001000), 0b000001000_11110001);
}

#[test]
fn test_decode() {
    // Exhaustively test loopback of all possible input words.
    for w in 0..1 << 9 {
        assert_eq!(decode(encode(w)), Some((w, 0)));
    }

    let w = encode(0b1010101);
    assert_eq!(w, 0b1010101_00100001);
    assert_eq!(decode(w), Some((0b1010101, 0)));

    // Exhaustively test one-bit errors.
    for i in 0..17 {
        assert_eq!(decode(w ^ 1 << i), Some((0b1010101, 1)));
    }

    // Exhaustively test two-bit errors.
    for (i, j) in (0..17).zip(0..17) {
        if i != j {
            assert_eq!(decode(w ^ (1 << i) ^ (1 << j)), Some((0b1010101, 2)));
        }
    }
}

#[test]
fn test_rotate_17() {
    assert_eq!(rotate_17(0b00000000000000000), 0b00000000000000000);
    assert_eq!(rotate_17(0b10000000000000000), 0b01000000000000000);
    assert_eq!(rotate_17(0b01000000000000000), 0b00100000000000000);
    assert_eq!(rotate_17(0b00100000000000000), 0b00010000000000000);
    assert_eq!(rotate_17(0b00010000000000000), 0b00001000000000000);
    assert_eq!(rotate_17(0b00001000000000000), 0b00000100000000000);
    assert_eq!(rotate_17(0b00000100000000000), 0b00000010000000000);
    assert_eq!(rotate_17(0b00000010000000000), 0b00000001000000000);
    assert_eq!(rotate_17(0b00000001000000000), 0b00000000100000000);
    assert_eq!(rotate_17(0b00000000100000000), 0b00000000010000000);
    assert_eq!(rotate_17(0b00000000010000000), 0b00000000001000000);
    assert_eq!(rotate_17(0b00000000001000000), 0b00000000000100000);
    assert_eq!(rotate_17(0b00000000000100000), 0b00000000000010000);
    assert_eq!(rotate_17(0b00000000000010000), 0b00000000000001000);
    assert_eq!(rotate_17(0b00000000000001000), 0b00000000000000100);
    assert_eq!(rotate_17(0b00000000000000100), 0b00000000000000010);
    assert_eq!(rotate_17(0b00000000000000010), 0b00000000000000001);
    assert_eq!(rotate_17(0b00000000000000001), 0b10000000000000000);
    assert_eq!(rotate_17(0b01111111111111111), 0b10111111111111111);

    let mut word = 0b11100011001010101;

    for _ in 0..17 {
        word = rotate_17(word);
    }

    assert_eq!(word, 0b11100011001010101);
}

#[test]
fn test_double_bit_all_pairs() {
    // Every genuine pair of distinct error positions is corrected.
    let w = encode(0b1010101);
    for i in 0..17 {
        for j in 0..17 {
            if i != j {
                assert_eq!(decode(w ^ (1 << i) ^ (1 << j)), Some((0b1010101, 2)));
            }
        }
    }
}

#[test]
fn test_single_bit_other_codewords() {
    for d in [0u16, 1, 0b101010101, 0b111111111, 0b100000001] {
        let c = encode(d);
        for i in 0..17 {
            assert_eq!(decode(c ^ (1 << i)), Some((d, 1)));
        }
    }
}

#[test]
fn test_decode_failure() {
    // A word too far from every codeword is an explicit decode failure.
    assert_eq!(decode(0b1011), None);

    // Three errors can exceed the code's correction capability.
    let w = encode(0b1010101) ^ 0b1011;
    assert_eq!(w, 0x552a);
    assert_eq!(decode(w), None);
}

#[test]
fn test_encode_linearity_cases() {
    // Boundary cases: all-zero maps to all-zero, all-ones to all-ones.
    assert_eq!(encode(0), 0);
    assert_eq!(encode(0b111111111), 0b11111111111111111);

    // XOR of data words encodes to the XOR of their codewords.
    let pairs = [
        (0b000001001u16, 0b000001010u16),
        (0b100000001, 0b000001000),
        (0b111111111, 0b101010101),
    ];
    for (a, b) in pairs {
        assert_eq!(encode(a ^ b), encode(a) ^ encode(b));
    }
}
