use linkiq::fec::{CodeRate, EncodeResult, EncoderTermination};
use linkiq::header::HeaderCodebook;
use linkiq::stack::phl::{self, DecodeStep, ReadOutcome};
use linkiq::stack::{
    MbalCommand, MbalControl, MbalFields, MbalFunctionCode, Packet, PhlFields, ReadError, Stack,
    WriteError,
};
use linkiq::wmbus::WMBusAddress;

struct ExampleVector {
    code_rate: CodeRate,
    is_prioritized: bool,
    is_installation: bool,
    address: WMBusAddress,
    mbus_data: &'static [u8],
    frame: &'static [u8],
}

/// The header codewords that the four example frames carry.
fn example_codebook() -> HeaderCodebook {
    let mut codebook = HeaderCodebook::new();
    assert!(codebook.push(CodeRate::OneHalf, 49, 0xc48de495cd17512402f0));
    assert!(codebook.push(CodeRate::OneHalf, 99, 0x18d1e709af919e1167790));
    assert!(codebook.push(CodeRate::OneThird, 60, 0xf0a89135b52c652f2f21));
    assert!(codebook.push(CodeRate::OneThird, 46, 0xb8decd3a9d233100bc01));
    codebook
}

fn example_packet(vector: &ExampleVector) -> Packet {
    let mut packet = Packet::new();
    packet.phl = Some(PhlFields {
        code_rate: vector.code_rate,
        header_distance: 0,
        decode_iterations: 0,
        decode_distance: 0,
    });
    packet.mbal = Some(MbalFields {
        control: MbalControl { is_prioritized: vector.is_prioritized },
        address: vector.address,
        command: MbalCommand {
            function_code: if vector.is_installation {
                MbalFunctionCode::SendInstallationRequest
            } else {
                MbalFunctionCode::SendUnsolicitedApplicationData
            },
        },
    });
    packet.mbus_data = vector.mbus_data.to_vec();
    packet
}

/// The encoder result that the example frame carries: its systematic block,
/// its parity bytes and its termination field.
fn example_encode_result(vector: &ExampleVector) -> EncodeResult {
    let block_length = 12 + vector.mbus_data.len() + 4;
    let termination = (((vector.frame[10] & 0x0f) as u64) << 8) | vector.frame[11] as u64;
    EncodeResult {
        systematic: vector.frame[12..12 + block_length].to_vec(),
        parity: vector.frame[12 + block_length..].to_vec(),
        first_termination: EncoderTermination(termination >> 6),
        second_termination: EncoderTermination(termination & 0x3f),
    }
}

/// Bitwise CRC-32, poly 0xF4ACFB13, init 0, no reflection, no final xor.
fn reference_crc32(data: &[u8]) -> u32 {
    let mut crc: u32 = 0;
    for byte in data {
        crc ^= (*byte as u32) << 24;
        for _ in 0..8 {
            crc = if crc & 0x8000_0000 != 0 { (crc << 1) ^ 0xF4AC_FB13 } else { crc << 1 };
        }
    }
    crc
}

/// Bitwise CRC-16/EN-13757: poly 0x3D65, init 0, no reflection, xor 0xFFFF.
fn reference_crc16(data: &[u8]) -> u16 {
    let mut crc: u16 = 0;
    for byte in data {
        crc ^= (*byte as u16) << 8;
        for _ in 0..8 {
            crc = if crc & 0x8000 != 0 { (crc << 1) ^ 0x3D65 } else { crc << 1 };
        }
    }
    crc ^ 0xFFFF
}

fn can_read_example_case(
    vector: &ExampleVector,
    header_distance: usize,
    decode_iterations: usize,
    decode_distance: usize,
) {
    // Given
    let stack = Stack::new(example_codebook());
    let frame = vector.frame.to_vec();

    // When
    let packet = match stack.read(&frame) {
        Ok(ReadOutcome::Decoded(packet)) => packet,
        Ok(ReadOutcome::NeedsDecoding(_)) => panic!("the block CRC should hold"),
        Err(e) => panic!("read failed: {:?}", e),
    };

    // Then
    assert_eq!(vector.frame.len(), stack.get_frame_length(&frame).unwrap());

    let phl = packet.phl.unwrap();
    assert_eq!(vector.code_rate, phl.code_rate);
    assert_eq!(
        (header_distance, decode_iterations, decode_distance),
        (phl.header_distance, phl.decode_iterations, phl.decode_distance)
    );

    let mbal = packet.mbal.unwrap();
    assert_eq!(vector.is_prioritized, mbal.control.is_prioritized);
    assert_eq!(vector.address, mbal.address);
    assert_eq!(
        vector.is_installation,
        mbal.command.function_code == MbalFunctionCode::SendInstallationRequest
    );

    assert_eq!(vector.mbus_data, packet.mbus_data.as_slice());
}

#[test]
fn can_read_examples() {
    can_read_example_case(&example41(), 0, 0, 0);
    can_read_example_case(&example42(), 0, 0, 0);
    can_read_example_case(&example43(), 0, 0, 0);
    can_read_example_case(&example44(), 0, 0, 0);
}

fn can_write_example_case(vector: &ExampleVector) {
    // Given
    let stack = Stack::new(example_codebook());
    let packet = example_packet(vector);

    // When
    let block = stack.write_block(&packet).unwrap();
    let frame = stack.write_frame(&packet, &example_encode_result(vector)).unwrap();

    // Then
    assert_eq!(&vector.frame[12..12 + block.len()], block.as_slice());
    assert_eq!(vector.frame, frame.as_slice());
}

#[test]
fn can_write_examples() {
    can_write_example_case(&example41());
    can_write_example_case(&example42());
    can_write_example_case(&example43());
    can_write_example_case(&example44());
}

#[test]
fn example41_frame_begins_as_specified() {
    let stack = Stack::new(example_codebook());
    let vector = example41();
    let frame = stack.write_frame(&example_packet(&vector), &example_encode_result(&vector)).unwrap();
    assert_eq!(
        &[
            0xCC, 0x48, 0xDE, 0x49, 0x5C, 0xD1, 0x75, 0x12, 0x40, 0x2F, 0x09, 0x32, 0x01, 0x37, 0x2C,
            0x34, 0x12, 0x34, 0x12, 0x1B, 0x16, 0x60, 0x16, 0x61,
        ],
        &frame[..24]
    );
}

#[test]
fn frame_length_matches_written_frame_length() {
    let stack = Stack::new(example_codebook());
    for vector in [example41(), example42(), example43(), example44()] {
        let frame = stack.write_frame(&example_packet(&vector), &example_encode_result(&vector)).unwrap();
        assert_eq!(frame.len(), stack.get_frame_length(&frame).unwrap());
    }
}

#[test]
fn get_frame_length_needs_twelve_bytes() {
    let stack = Stack::new(example_codebook());
    let vector = example43();
    assert_eq!(Err(ReadError::NotEnoughBytes), stack.get_frame_length(&vector.frame[..11]));
    assert_eq!(Ok(204), stack.get_frame_length(&vector.frame[..12]));
}

#[test]
fn get_frame_length_with_empty_codebook_needs_more() {
    let stack = Stack::new(HeaderCodebook::new());
    assert_eq!(Err(ReadError::NotEnoughBytes), stack.get_frame_length(example41().frame));
}

#[test]
fn read_of_truncated_frame_needs_more_bytes() {
    let stack = Stack::new(example_codebook());
    let vector = example42();
    let short = &vector.frame[..vector.frame.len() - 1];
    assert!(matches!(stack.read(short), Err(ReadError::NotEnoughBytes)));
}

#[test]
fn header_with_flipped_bits_reports_distance() {
    let stack = Stack::new(example_codebook());
    let mut frame = example44().frame.to_vec();
    frame[1] ^= 0x81;
    frame[5] ^= 0x10;
    let packet = match stack.read(&frame) {
        Ok(ReadOutcome::Decoded(packet)) => packet,
        _ => panic!("the block is intact"),
    };
    assert_eq!(3, packet.phl.unwrap().header_distance);
    assert_eq!(example44().mbus_data, packet.mbus_data.as_slice());
}

#[test]
fn corrupted_block_starts_decoding_session() {
    let stack = Stack::new(example_codebook());
    let vector = example43();
    let mut frame = vector.frame.to_vec();
    frame[20] ^= 0x05;
    frame[30] ^= 0x80;
    let mut session = match stack.read(&frame) {
        Ok(ReadOutcome::NeedsDecoding(session)) => session,
        _ => panic!("the block CRC should fail"),
    };
    assert_eq!(64, session.block_len());
    assert_eq!(512, session.interleaver().length);
    assert_eq!(512, session.input().symbols.len());

    // An iteration that leaves the errors in place does not decode.
    let received = frame[12..12 + 64].to_vec();
    assert!(matches!(session.step(&received), DecodeStep::Continue));

    // The corrected block decodes after the second iteration, three bits away.
    let corrected = vector.frame[12..12 + 64].to_vec();
    let packet = match session.step(&corrected) {
        DecodeStep::Done(Ok(packet)) => packet,
        _ => panic!("the corrected block should decode"),
    };
    let phl = packet.phl.unwrap();
    assert_eq!((0, 2, 3), (phl.header_distance, phl.decode_iterations, phl.decode_distance));
    assert_eq!(vector.mbus_data, packet.mbus_data.as_slice());
}

#[test]
fn decoding_fails_when_budget_is_spent() {
    let mut stack_codebook = example_codebook();
    assert!(!stack_codebook.push(CodeRate::OneHalf, 49, 0xc48de495cd17512402f0));
    let stack = Stack::new(stack_codebook);
    let mut frame = example41().frame.to_vec();
    frame[13] ^= 0x01;
    let mut session = match stack.read(&frame) {
        Ok(ReadOutcome::NeedsDecoding(session)) => session,
        _ => panic!("the block CRC should fail"),
    };
    let received = frame[12..12 + 53].to_vec();
    let mut last = None;
    for _ in 0..phl::MAX_DECODE_ITERATIONS {
        match session.step(&received) {
            DecodeStep::Continue => {}
            DecodeStep::Done(result) => {
                last = Some(result);
                break;
            }
        }
    }
    assert_eq!(phl::MAX_DECODE_ITERATIONS, session.iterations());
    assert!(matches!(last, Some(Err(ReadError::PhlDecodeError))));
}

#[test]
fn block_length_outside_interleaver_table_fails_to_decode() {
    // A header for 3 data bytes: a 56-bit block has no interleaver.
    let mut codebook = HeaderCodebook::new();
    assert!(codebook.push(CodeRate::OneThird, 3, 0x1));
    let stack = Stack::new(codebook);
    let mut frame = vec![0u8; 12 + 7 + 14];
    frame[0] = 0xC0;
    frame[12] = 0xFF;
    assert!(matches!(stack.read(&frame), Err(ReadError::PhlDecodeError)));
}

#[test]
fn block_length_outside_interleaver_table_fails_even_with_valid_crc() {
    // A header for 3 data bytes with a block whose CRC-32 holds.
    let mut codebook = HeaderCodebook::new();
    assert!(codebook.push(CodeRate::OneThird, 3, 0x1));
    let stack = Stack::new(codebook);
    let mut frame = vec![0u8; 12 + 7 + 14];
    frame[0] = 0xC0;
    frame[12..15].copy_from_slice(&[1, 2, 3]);
    let crc = reference_crc32(&[3, 1, 2, 3]);
    frame[15..19].copy_from_slice(&crc.to_be_bytes());
    assert!(linkiq::stack::phl::is_block_crc_valid(3, &frame[12..19]));
    assert!(matches!(stack.read(&frame), Err(ReadError::PhlDecodeError)));
}

#[test]
fn oversized_packet_cannot_be_written() {
    let stack = Stack::new(example_codebook());
    let mut packet = example_packet(&example41());
    packet.mbus_data = vec![0u8; 240];
    assert!(matches!(stack.write_block(&packet), Err(WriteError::Capacity)));
    packet.mbus_data = vec![0u8; 239];
    let block = stack.write_block(&packet).unwrap();
    assert_eq!(255, block.len());
}

#[test]
fn missing_codeword_cannot_be_written() {
    let stack = Stack::new(example_codebook());
    let mut packet = example_packet(&example41());
    packet.mbus_data.push(0);
    let result = example_encode_result(&example41());
    assert!(matches!(stack.write_frame(&packet, &result), Err(WriteError::NoHeaderCodeword)));
}

#[test]
fn mbal_errors_are_reported() {
    let stack = Stack::new(example_codebook());
    let vector = example43();
    let block_length = 12 + vector.mbus_data.len() + 4;

    // Rewrites the MBAL header of a frame, with a fresh block CRC.
    let with_header = |header: &[u8]| -> Vec<u8> {
        let mut packet = example_packet(&vector);
        packet.mbus_data = vector.mbus_data.to_vec();
        let block = stack.write_block(&packet).unwrap();
        let mut upper = block[..block_length - 4].to_vec();
        upper[..header.len()].copy_from_slice(header);
        let mut input = vec![upper.len() as u8];
        input.extend_from_slice(&upper);
        let crc = reference_crc32(&input);
        let mut frame = vector.frame[..12].to_vec();
        frame.extend_from_slice(&upper);
        frame.extend_from_slice(&crc.to_be_bytes());
        frame.extend_from_slice(&vector.frame[12 + block_length..]);
        frame
    };
    let intact = &vector.frame[12..24];

    let mut bad_crc = intact.to_vec();
    bad_crc[11] ^= 1;
    assert!(matches!(stack.read(&with_header(&bad_crc)), Err(ReadError::MBalCrcError)));

    let resealed = |mut header: Vec<u8>| -> Vec<u8> {
        let crc = reference_crc16(&header[..10]);
        header[10] = (crc >> 8) as u8;
        header[11] = crc as u8;
        header
    };

    let mut bad_control = intact.to_vec();
    bad_control[0] = 2;
    assert!(matches!(stack.read(&with_header(&resealed(bad_control))), Err(ReadError::MBalControlError)));

    let mut bad_serial = intact.to_vec();
    bad_serial[3] = 0x0A;
    assert!(matches!(stack.read(&with_header(&resealed(bad_serial))), Err(ReadError::MBalAddressError)));

    let mut bad_command = intact.to_vec();
    bad_command[9] = 0x50;
    assert!(matches!(stack.read(&with_header(&resealed(bad_command))), Err(ReadError::MBalCommandError)));

    assert!(matches!(stack.read(&with_header(intact)), Ok(ReadOutcome::Decoded(_))));
}

fn example41() -> ExampleVector {
    ExampleVector {
        code_rate: CodeRate::OneHalf,
        is_prioritized: true,
        is_installation: true,
        address: WMBusAddress::new(0x2c37, 12341234, 27, 0x16),
        mbus_data: &[
        0x7A, 0x01, 0x00, 0x20, 0x05, 0x19, 0x32, 0x29, 0xBC, 0xE6, 0x4D, 0x65, 0x1F, 0x1D, 0xED, 0x42,
        0x68, 0x73, 0x03, 0xB2, 0x9A, 0xF6, 0xA6, 0x80, 0x53, 0x36, 0x08, 0x4A, 0x0C, 0xC4, 0xB4, 0xB9,
        0x23, 0x71, 0xA3, 0xCA, 0xB9,
        ],
        frame: &[
        0xCC, 0x48, 0xDE, 0x49, 0x5C, 0xD1, 0x75, 0x12, 0x40, 0x2F, 0x09, 0x32, 0x01, 0x37, 0x2C, 0x34,
        0x12, 0x34, 0x12, 0x1B, 0x16, 0x60, 0x16, 0x61, 0x7A, 0x01, 0x00, 0x20, 0x05, 0x19, 0x32, 0x29,
        0xBC, 0xE6, 0x4D, 0x65, 0x1F, 0x1D, 0xED, 0x42, 0x68, 0x73, 0x03, 0xB2, 0x9A, 0xF6, 0xA6, 0x80,
        0x53, 0x36, 0x08, 0x4A, 0x0C, 0xC4, 0xB4, 0xB9, 0x23, 0x71, 0xA3, 0xCA, 0xB9, 0xFC, 0x9B, 0x4F,
        0xFE, 0x09, 0xD3, 0x5F, 0xE3, 0xFB, 0x1E, 0x3B, 0x5A, 0x49, 0xA7, 0x1A, 0x34, 0x24, 0x39, 0x87,
        0x30, 0x07, 0xBD, 0x8E, 0x41, 0x78, 0x77, 0x7A, 0x82, 0x7C, 0x72, 0x3B, 0x81, 0x49, 0xBE, 0x18,
        0x74, 0x50, 0x08, 0xDB, 0x6E, 0x1F, 0x01, 0x33, 0x14, 0x96, 0x79, 0xAC, 0x67, 0xA4, 0xE3, 0xFA,
        0x08, 0x38, 0x42, 0x99, 0x18, 0x31,
        ],
    }
}

fn example42() -> ExampleVector {
    ExampleVector {
        code_rate: CodeRate::OneHalf,
        is_prioritized: false,
        is_installation: false,
        address: WMBusAddress::new(0x2c2d, 71006389, 0x34, 0x04),
        mbus_data: &[
        0x90, 0x0F, 0x00, 0x2C, 0x25, 0x45, 0x42, 0x01, 0x00, 0xC9, 0xFE, 0x78, 0x01, 0x18, 0xB7, 0xE8,
        0x31, 0x7A, 0x12, 0x18, 0x40, 0x07, 0x10, 0x35, 0xCD, 0x99, 0x1D, 0xE9, 0xC5, 0x3C, 0x5D, 0xCC,
        0x31, 0x05, 0x01, 0x87, 0x82, 0xD7, 0x2D, 0x1C, 0xDB, 0x39, 0xC5, 0xDB, 0x1B, 0x7C, 0x21, 0x82,
        0x05, 0x7E, 0x19, 0x35, 0xD7, 0x73, 0xAF, 0xDA, 0xAA, 0x24, 0xF4, 0xFA, 0x17, 0x38, 0xE2, 0xBD,
        0x8B, 0x13, 0xF3, 0xFC, 0x77, 0xA3, 0x2B, 0x68, 0xF1, 0xD1, 0x2E, 0x73, 0x66, 0xFE, 0xC6, 0x1D,
        0x69, 0xD7, 0xE7, 0x81, 0xC2, 0x88, 0x65,
        ],
        frame: &[
        0xD8, 0xD1, 0xE7, 0x09, 0xAF, 0x91, 0x9E, 0x11, 0x67, 0x79, 0x0E, 0x64, 0x00, 0x2D, 0x2C, 0x89,
        0x63, 0x00, 0x71, 0x34, 0x04, 0x40, 0x90, 0x01, 0x90, 0x0F, 0x00, 0x2C, 0x25, 0x45, 0x42, 0x01,
        0x00, 0xC9, 0xFE, 0x78, 0x01, 0x18, 0xB7, 0xE8, 0x31, 0x7A, 0x12, 0x18, 0x40, 0x07, 0x10, 0x35,
        0xCD, 0x99, 0x1D, 0xE9, 0xC5, 0x3C, 0x5D, 0xCC, 0x31, 0x05, 0x01, 0x87, 0x82, 0xD7, 0x2D, 0x1C,
        0xDB, 0x39, 0xC5, 0xDB, 0x1B, 0x7C, 0x21, 0x82, 0x05, 0x7E, 0x19, 0x35, 0xD7, 0x73, 0xAF, 0xDA,
        0xAA, 0x24, 0xF4, 0xFA, 0x17, 0x38, 0xE2, 0xBD, 0x8B, 0x13, 0xF3, 0xFC, 0x77, 0xA3, 0x2B, 0x68,
        0xF1, 0xD1, 0x2E, 0x73, 0x66, 0xFE, 0xC6, 0x1D, 0x69, 0xD7, 0xE7, 0x81, 0xC2, 0x88, 0x65, 0x53,
        0x88, 0x24, 0xCE, 0x04, 0x85, 0xF9, 0x43, 0x6D, 0x25, 0xED, 0xCF, 0xEB, 0xC7, 0xED, 0x35, 0x22,
        0x39, 0x7F, 0x29, 0x4B, 0x44, 0x01, 0xFB, 0xAB, 0xEB, 0xC6, 0x73, 0xBD, 0xDA, 0xF1, 0xFA, 0xAA,
        0x8B, 0x49, 0xB4, 0x10, 0x81, 0x7C, 0x15, 0xDF, 0x0D, 0xFE, 0x1B, 0xAA, 0x11, 0xCF, 0x05, 0xCF,
        0x5F, 0x64, 0x31, 0x15, 0x34, 0xEC, 0x65, 0x5E, 0x0C, 0x96, 0x6C, 0x93, 0xC8, 0x54, 0xBE, 0x53,
        0x76, 0xDB, 0xD1, 0x85, 0x6D, 0x15, 0x9D, 0xC7, 0x7A, 0x94, 0xCC, 0xDA, 0xE1, 0xE6, 0x9C, 0x74,
        0x47, 0x63, 0xB2, 0xBD, 0xAA, 0xFF, 0xF5, 0xBC, 0xD5, 0xEC, 0xDA, 0x2D, 0xBA, 0xD8, 0xDB, 0x75,
        0x60, 0x1C, 0x39, 0xF0, 0x4D, 0x6F, 0xD4, 0x33, 0x88, 0xFB,
        ],
    }
}

fn example43() -> ExampleVector {
    ExampleVector {
        code_rate: CodeRate::OneThird,
        is_prioritized: false,
        is_installation: false,
        address: WMBusAddress::new(0x2c2d, 5040302, 6, 0x00),
        mbus_data: &[
        0x7A, 0x22, 0xAB, 0xFF, 0x2A, 0x10, 0x01, 0xFF, 0xEE, 0xDD, 0xCC, 0xE6, 0x0D, 0x1F, 0x01, 0xDA,
        0xB0, 0xE2, 0x83, 0x2A, 0x65, 0x18, 0x00, 0x3E, 0xE7, 0x42, 0x4E, 0xE8, 0x65, 0xDF, 0xEE, 0x22,
        0x53, 0xC0, 0xD6, 0x35, 0xEE, 0xE6, 0x69, 0x77, 0xF4, 0x20, 0x4B, 0xA9, 0x3F, 0xD3, 0x44, 0x1C,
        ],
        frame: &[
        0xCF, 0x0A, 0x89, 0x13, 0x5B, 0x52, 0xC6, 0x52, 0xF2, 0xF2, 0x1B, 0xD6, 0x00, 0x2D, 0x2C, 0x02,
        0x03, 0x04, 0x05, 0x06, 0x00, 0x40, 0xC0, 0xBE, 0x7A, 0x22, 0xAB, 0xFF, 0x2A, 0x10, 0x01, 0xFF,
        0xEE, 0xDD, 0xCC, 0xE6, 0x0D, 0x1F, 0x01, 0xDA, 0xB0, 0xE2, 0x83, 0x2A, 0x65, 0x18, 0x00, 0x3E,
        0xE7, 0x42, 0x4E, 0xE8, 0x65, 0xDF, 0xEE, 0x22, 0x53, 0xC0, 0xD6, 0x35, 0xEE, 0xE6, 0x69, 0x77,
        0xF4, 0x20, 0x4B, 0xA9, 0x3F, 0xD3, 0x44, 0x1C, 0xE5, 0x74, 0xFB, 0x6D, 0x00, 0x35, 0xD1, 0xC8,
        0x5E, 0x90, 0xBF, 0x04, 0x5C, 0xC0, 0x8B, 0x4C, 0x0B, 0xF4, 0x26, 0x34, 0xFB, 0xD5, 0xCA, 0xD1,
        0xBC, 0xC0, 0xAD, 0xC1, 0x9E, 0x66, 0x2F, 0x20, 0x8C, 0x0D, 0x67, 0xD5, 0xD4, 0x86, 0x5C, 0x90,
        0x57, 0x26, 0x72, 0xB8, 0x43, 0x26, 0x92, 0x3F, 0x17, 0x6E, 0xCD, 0x0A, 0x77, 0x78, 0xAE, 0x95,
        0x17, 0xAB, 0xE3, 0x9C, 0x06, 0xB9, 0xC7, 0x81, 0x7A, 0x97, 0x33, 0x10, 0x22, 0x04, 0xA5, 0xE6,
        0x78, 0x32, 0x50, 0xA0, 0xA6, 0x81, 0x19, 0x84, 0x92, 0x01, 0xC8, 0x02, 0xF2, 0xD9, 0x48, 0x6B,
        0x44, 0xBB, 0xA8, 0xCE, 0x91, 0xC6, 0x78, 0xA7, 0x6A, 0x7A, 0xBC, 0xE1, 0xF9, 0xF3, 0xDD, 0x29,
        0xCF, 0xC9, 0xB1, 0x07, 0x5D, 0x88, 0x5B, 0x3D, 0x98, 0x83, 0x26, 0x5F, 0x8A, 0x70, 0xBD, 0xC7,
        0x18, 0xC4, 0xBB, 0x22, 0x00, 0x90, 0xED, 0x2D, 0xA6, 0x3F, 0xAD, 0x02,
        ],
    }
}

fn example44() -> ExampleVector {
    ExampleVector {
        code_rate: CodeRate::OneThird,
        is_prioritized: false,
        is_installation: false,
        address: WMBusAddress::new(0x2c2d, 5040302, 6, 0x00),
        mbus_data: &[
        0x7A, 0x2A, 0x00, 0x00, 0x00, 0x0D, 0xFD, 0x09, 0xE3, 0x0A, 0x03, 0x01, 0x41, 0x7C, 0x03, 0x34,
        0x53, 0x44, 0x0D, 0x42, 0x66, 0x1B, 0x01, 0x42, 0xFB, 0x1A, 0x42, 0x02, 0x44, 0x6D, 0x1E, 0x29,
        0xAB, 0x23,
        ],
        frame: &[
        0xCB, 0x8D, 0xEC, 0xD3, 0xA9, 0xD2, 0x33, 0x10, 0x0B, 0xC0, 0x1E, 0x56, 0x00, 0x2D, 0x2C, 0x02,
        0x03, 0x04, 0x05, 0x06, 0x00, 0x40, 0xC0, 0xBE, 0x7A, 0x2A, 0x00, 0x00, 0x00, 0x0D, 0xFD, 0x09,
        0xE3, 0x0A, 0x03, 0x01, 0x41, 0x7C, 0x03, 0x34, 0x53, 0x44, 0x0D, 0x42, 0x66, 0x1B, 0x01, 0x42,
        0xFB, 0x1A, 0x42, 0x02, 0x44, 0x6D, 0x1E, 0x29, 0xAB, 0x23, 0x7A, 0x0E, 0x72, 0xF2, 0x00, 0x35,
        0xD1, 0xC8, 0x5E, 0x90, 0xBF, 0x04, 0x5C, 0xC0, 0x8B, 0x4C, 0x0B, 0xFB, 0xCB, 0x97, 0x2E, 0x55,
        0x45, 0xEB, 0xB5, 0x0C, 0xE7, 0xE4, 0x56, 0x98, 0xBB, 0x79, 0xAE, 0xE9, 0xC2, 0xB1, 0x6F, 0xD8,
        0xCA, 0x08, 0xF8, 0xD9, 0x54, 0xE6, 0x7E, 0xA9, 0x49, 0xA5, 0x9F, 0xDB, 0x0B, 0xC0, 0xBD, 0x3D,
        0x2D, 0xC5, 0x9D, 0xDB, 0x6F, 0x84, 0x71, 0x7A, 0x28, 0x77, 0xEB, 0x11, 0x3E, 0xF4, 0x71, 0xC7,
        0x6C, 0xF7, 0x19, 0x0B, 0xD0, 0xF2, 0x89, 0x37, 0x1F, 0xA0, 0x3C, 0xC9, 0x50, 0x4D, 0x17, 0x09,
        0xF9, 0xB4, 0x96, 0x31, 0xD6, 0x2C, 0xD5, 0x34, 0xF5, 0x66, 0x63, 0xD3, 0x33, 0xD2, 0xFB, 0xEE,
        0x5F, 0x76,
        ],
    }
}
