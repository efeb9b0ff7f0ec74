use linkiq::fec::{hard_decision, CodeRate, EncoderTermination, TurboDecoderInput, TurboEncoderOutput};
use linkiq::interleaver;
use linkiq::wmbus::WMBusAddress;

#[test]
fn block_crc_is_checked() {
    // Data "123456789" preceded by its length; CRC-32 (poly 0xF4ACFB13).
    let mut block = b"123456789".to_vec();
    let crc = reference_crc32(&[&[9u8][..], &block[..]].concat());
    block.extend_from_slice(&crc.to_be_bytes());
    assert!(linkiq::stack::phl::is_block_crc_valid(9, &block));
    block[3] ^= 1;
    assert!(!linkiq::stack::phl::is_block_crc_valid(9, &block));
}

#[test]
fn mbal_crc_is_checked() {
    let mut header = b"0123456789".to_vec();
    let crc = reference_crc16(&header);
    header.extend_from_slice(&crc.to_be_bytes());
    assert!(linkiq::stack::mbal::is_valid_crc(&header));
    header[11] ^= 1;
    assert!(!linkiq::stack::mbal::is_valid_crc(&header));
}

#[test]
fn reference_crcs_match_check_values() {
    assert_eq!(0x6C9F84A8, reference_crc32(b"123456789"));
    assert_eq!(0xC2B7, reference_crc16(b"123456789"));
}

/// Bitwise CRC-32, poly 0xF4ACFB13, init 0, no reflection, no final xor.
fn reference_crc32(data: &[u8]) -> u32 {
    let mut crc: u32 = 0;
    for byte in data {
        crc ^= (*byte as u32) << 24;
        for _ in 0..8 {
            crc = if crc & 0x8000_0000 != 0 { (crc << 1) ^ 0xF4AC_FB13 } else { crc << 1 };
        }
    }
    crc
}

/// Bitwise CRC-16/EN-13757: poly 0x3D65, init 0, no reflection, xor 0xFFFF.
fn reference_crc16(data: &[u8]) -> u16 {
    let mut crc: u16 = 0;
    for byte in data {
        crc ^= (*byte as u16) << 8;
        for _ in 0..8 {
            crc = if crc & 0x8000 != 0 { (crc << 1) ^ 0x3D65 } else { crc << 1 };
        }
    }
    crc ^ 0xFFFF
}

#[test]
fn interleaver_table() {
    assert!(interleaver::new(120).is_none());
    assert!(interleaver::new(2048).is_none());
    assert!(interleaver::new(130).is_none());
    let q = interleaver::new(128).unwrap();
    assert_eq!((128, 7, 16), (q.length, q.f1, q.f2));
    assert_eq!((7 * 5 + 16 * 25) % 128, q.get(5));
    let q = interleaver::new(2040).unwrap();
    assert_eq!((43, 510), (q.f1, q.f2));
    let mut seen = vec![false; 2040];
    for i in 0..2040 {
        seen[q.get(i)] = true;
    }
    assert!(seen.iter().all(|s| *s));
    for (n, f1, f2) in [(400, 7, 40), (424, 27, 106), (512, 15, 32), (824, 35, 206)] {
        let q = interleaver::new(n).unwrap();
        assert_eq!((n, f1, f2), (q.length, q.f1, q.f2));
    }
}

#[test]
fn every_table_interleaver_is_a_permutation() {
    let mut count = 0;
    for n in (128..=2040).step_by(8) {
        let q = interleaver::new(n).unwrap();
        assert!(q.is_permutation(), "length {}", n);
        count += 1;
    }
    assert_eq!(240, count);
}

#[test]
fn non_permutation_is_detected() {
    let q = interleaver::QppInterleaver { length: 128, f1: 2, f2: 16 };
    assert!(!q.is_permutation());
}

#[test]
fn encoder_output_punctures_at_rate_one_half() {
    let mut output = TurboEncoderOutput::new(CodeRate::OneHalf);
    // Outputs carry systematic in bit 0 and the two parities in bits 1, 2.
    let outputs = [0b111u8, 0b110, 0b011, 0b100, 0b001, 0b010, 0b111, 0b000];
    for o in outputs {
        output.write_output(o);
    }
    for o in [0b01u8, 0b10, 0b11] {
        output.write_termination_output(0, o);
    }
    for o in [0b00u8, 0b11, 0b10] {
        output.write_termination_output(1, o);
    }
    assert_eq!(8 + 4 + 4 + 12, output.written());
    assert!(output.is_byte_aligned());
    let result = output.get_result();
    // Systematic 1,0,1,0,1,0,1,0; first parity at even positions 1,1,0,1;
    // second parity at odd positions 1,1,0,0.
    assert_eq!(vec![0b1010_1010], result.systematic);
    assert_eq!(vec![0b1101_1100], result.parity);
    assert_eq!(0b101_011, result.first_termination.0);
    assert_eq!(0b010_011, result.second_termination.0);
    assert_eq!((0b101_011 << 6) | 0b010_011, result.termination());
}

#[test]
fn decoder_input_depunctures_at_rate_one_half() {
    let block = [0b1010_1010u8];
    let parity = [0b1101_1100u8];
    let input = TurboDecoderInput::new(
        CodeRate::OneHalf,
        &block,
        &parity,
        EncoderTermination(0b101_110),
        EncoderTermination(0b011_011),
        4,
    );
    let firsts: Vec<i16> = input.symbols.iter().map(|s| s.first_parity).collect();
    let seconds: Vec<i16> = input.symbols.iter().map(|s| s.second_parity).collect();
    let systematic: Vec<i16> = input.symbols.iter().map(|s| s.systematic).collect();
    assert_eq!(vec![4, -4, 4, -4, 4, -4, 4, -4], systematic);
    assert_eq!(vec![4, 0, 4, 0, -4, 0, 4, 0], firsts);
    assert_eq!(vec![0, 4, 0, 4, 0, -4, 0, -4], seconds);
    assert_eq!((4, 4), (input.first_termination[0].systematic, input.first_termination[0].parity));
    assert_eq!((-4, 4), (input.first_termination[1].systematic, input.first_termination[1].parity));
    assert_eq!((4, -4), (input.first_termination[2].systematic, input.first_termination[2].parity));
    assert_eq!((-4, -4), (input.second_termination[0].systematic, input.second_termination[0].parity));
}

#[test]
fn decoder_input_keeps_all_parity_at_rate_one_third() {
    let block = [0xF0u8];
    let parity = [0x0F, 0xAA];
    let input = TurboDecoderInput::new(
        CodeRate::OneThird,
        &block,
        &parity,
        EncoderTermination(0),
        EncoderTermination(63),
        4,
    );
    assert_eq!(8, input.symbols.len());
    assert_eq!((4, -4, 4), (input.symbols[0].systematic, input.symbols[0].first_parity, input.symbols[0].second_parity));
    assert_eq!((-4, 4, -4), (input.symbols[7].systematic, input.symbols[7].first_parity, input.symbols[7].second_parity));
}

#[test]
fn hard_decision_packs_positive_values() {
    assert_eq!(vec![0b1001_0110], hard_decision(&[3, -1, 0, 7, -7, 1, 2, -2]));
}

#[test]
fn address_round_trip() {
    let address = WMBusAddress::new(0x2c37, 12341234, 0x1B, 0x16);
    let bytes = address.get_bytes();
    assert_eq!([0x37, 0x2C, 0x34, 0x12, 0x34, 0x12, 0x1B, 0x16], bytes);
    assert_eq!(Ok(address), WMBusAddress::try_from_slice(&bytes));
    assert_eq!(0x1234_1234, address.serial_number);
}

#[test]
fn address_with_hex_serial_digit_is_refused() {
    assert_eq!(Err(()), WMBusAddress::try_from_slice(&[0x37, 0x2C, 0x3A, 0x12, 0x34, 0x12, 0x1B, 0x16]));
    assert_eq!(Err(()), WMBusAddress::try_from_slice(&[0x37, 0x2C, 0x34]));
}

#[test]
fn decoder_input_mirrors_encoder_output() {
    for rate in [CodeRate::OneThird, CodeRate::OneHalf] {
        let outputs: Vec<u8> = (0..16u32).map(|i| ((i * 5 + 3) % 8) as u8).collect();
        let mut output = TurboEncoderOutput::new(rate);
        for o in &outputs {
            output.write_output(*o);
        }
        let result = output.get_result();
        let input = TurboDecoderInput::new(
            rate,
            &result.systematic,
            &result.parity,
            EncoderTermination(0),
            EncoderTermination(0),
            4,
        );
        let llr = |bit: u8| if bit != 0 { 4i16 } else { -4i16 };
        for (i, o) in outputs.iter().enumerate() {
            let keep_first = rate == CodeRate::OneThird || i % 2 == 0;
            let keep_second = rate == CodeRate::OneThird || i % 2 == 1;
            let s = input.symbols[i];
            assert_eq!(llr(o & 1), s.systematic);
            assert_eq!(if keep_first { llr(o & 2) } else { 0 }, s.first_parity);
            assert_eq!(if keep_second { llr(o & 4) } else { 0 }, s.second_parity);
        }
    }
}
