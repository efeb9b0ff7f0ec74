use linkiq::bits::{pack_msb0, BitOrder, BitReader};

#[test]
fn can_read_few_bits_lsb0() {
    let buffer = [0x1A];
    let mut reader = BitReader::from_slice(&buffer, BitOrder::Lsb0);
    assert_eq!(0b10u64, reader.read_bits(2).unwrap());
    assert_eq!(0b110u64, reader.read_bits(3).unwrap());
}

#[test]
fn can_read_few_bits_msb0() {
    let buffer = [0xB0];
    let mut reader = BitReader::from_slice(&buffer, BitOrder::Msb0);
    assert_eq!(0b10u64, reader.read_bits(2).unwrap());
    assert_eq!(0b110u64, reader.read_bits(3).unwrap());
}

#[test]
fn can_read_bits_in_multiple_bytes_lsb0() {
    let buffer = [0xFA, 0xCB, 0xD1];
    let mut reader = BitReader::from_slice(&buffer, BitOrder::Lsb0);
    assert_eq!(0b10u64, reader.read_bits(2).unwrap());
    assert_eq!(0b110u64, reader.read_bits(3).unwrap());
    assert_eq!(0b1101000111001011111u64, reader.read_bits(19).unwrap());
}

#[test]
fn can_read_bits_in_multiple_bytes_msb0() {
    let buffer = [0xB6, 0x8E, 0x5F];
    let mut reader = BitReader::from_slice(&buffer, BitOrder::Msb0);
    assert_eq!(0b10u64, reader.read_bits(2).unwrap());
    assert_eq!(0b110u64, reader.read_bits(3).unwrap());
    assert_eq!(0b1101000111001011111u64, reader.read_bits(19).unwrap());
}

#[test]
fn reading_past_the_end_fails() {
    let buffer = [0xFF];
    let mut reader = BitReader::from_slice(&buffer, BitOrder::Msb0);
    assert_eq!(None, reader.read_bits(9));
    assert_eq!(Some(0xFF), reader.read_bits(8));
    assert_eq!(None, reader.read_bit());
}

#[test]
fn can_read_sixty_four_bits() {
    let buffer = [0x01, 0x23, 0x45, 0x67, 0x89, 0xAB, 0xCD, 0xEF];
    let mut reader = BitReader::from_slice(&buffer, BitOrder::Msb0);
    assert_eq!(Some(0x0123_4567_89AB_CDEF), reader.read_bits(64));
}

#[test]
fn can_pack_bits() {
    let bits = vec![true, false, true, true, false, false, false, true];
    assert_eq!(vec![0xB1], pack_msb0(&bits));
}
