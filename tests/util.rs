use pngme::util::{get_bit, Bit, MOST_SIG};

#[test]
fn bit_indices() {
    let bits = [
        Bit::Zero,
        Bit::One,
        Bit::Two,
        Bit::Three,
        Bit::Four,
        Bit::Five,
        Bit::Six,
        Bit::Seven,
    ];
    for (i, b) in bits.into_iter().enumerate() {
        assert_eq!(u8::from(b) as usize, i);
    }
}

#[test]
fn get_bit_values() {
    assert!(get_bit(0x80, MOST_SIG));
    assert!(!get_bit(0x7f, MOST_SIG));
    assert!(get_bit(0b0010_0000, Bit::Five));
    assert!(!get_bit(0b1101_1111, Bit::Five));
    assert!(get_bit(1, Bit::Zero));
    assert!(!get_bit(2, Bit::Zero));
}
