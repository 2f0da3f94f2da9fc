use rustkernel::bits::get_bits;
use rustkernel::bits::set_bits;

#[test]
fn test_set_bits() {
    let mut result = set_bits(0b0, 1, 2, 0b1);
    assert_eq!(result, 0b10);
    result = set_bits(0b100, 0, 2, 0b11);
    assert_eq!(result, 0b111);
    result = set_bits(0b11111111, 3, 7, 0b010);
    assert_eq!(result, 0b10010111);
    result = set_bits(0b1111111111111111, 0, 16, 0b0);
    assert_eq!(result, 0b0);
}

#[test]
fn set_bits_full_range_clears() {
    assert_eq!(set_bits(0xffff, 0, 16, 0), 0);
}

#[test]
fn set_bits_changes_only_the_range() {
    // Surrounding bits survive on either side of the range.
    let word = 0b1010_0000_0000_0101;
    let result = set_bits(word, 4, 8, 0b1111);
    assert_eq!(result, 0b1010_0000_1111_0101);
    assert_eq!(result & 0b1111_1111_0000_1111, word & 0b1111_1111_0000_1111);
}

#[test]
fn set_bits_read_back_returns_value() {
    for word in [0u16, 0xffff, 0b1010_1010_1010_1010] {
        let result = set_bits(word, 3, 9, 0b10_1101);
        assert_eq!(get_bits(result, 3, 9), 0b10_1101);
    }
}

#[test]
fn set_bits_is_idempotent() {
    let once = set_bits(0xabcd, 2, 11, 0x13a);
    let twice = set_bits(once, 2, 11, 0x13a);
    assert_eq!(once, twice);
}

#[test]
fn trivial_assertation() {
    assert_eq!(1, 1);
}
