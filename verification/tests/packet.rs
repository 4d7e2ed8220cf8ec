use telink_ota::crc::crc16_modbus;
use telink_ota::packet::{
    chunk_ack_ok, chunk_packet, finish_packet, start_packet, version_packet, CHUNK_LEN, MAGIC,
    REPORT_SIZE,
};

#[test]
fn chunk_packet_matches_documented_layout() {
    let data = [0xAAu8; CHUNK_LEN];
    let r = chunk_packet(0x30, &data); // offset 0x30 -> address 0x0003
    assert_eq!(r[0], 0x05);
    assert_eq!(r[1], 0x1D); // len(20) + 9
    assert_eq!(r[2], 0x01);
    assert_eq!(r[3], 0x1B); // len(20) + 7
    assert_eq!(r[4], 0x17); // len(20) + 3
    assert_eq!(&r[5..9], &MAGIC);
    assert_eq!(&r[9..11], &[0x03, 0x00]); // address, LE16
    assert_eq!(&r[11..27], &data);
    let crc = crc16_modbus(&r[9..27]);
    assert_eq!(&r[27..29], &crc.to_le_bytes());
}

#[test]
fn control_opcodes_are_little_endian() {
    assert_eq!(&version_packet()[9..11], &[0x00, 0xFF]);
    assert_eq!(&start_packet()[9..11], &[0x01, 0xFF]);
    assert_eq!(&finish_packet(0x30)[9..11], &[0x02, 0xFF]);
}

#[test]
fn finish_packet_carries_address_and_complement() {
    let r = finish_packet(0x30); // last chunk offset 0x30 -> address 0x0003
    assert_eq!(&r[11..15], &[0x03, 0x00, !0x03u8, !0x00u8]);
}

#[test]
fn chunk_ack_ok_recognizes_a_real_captured_success_response() {
    let resp: [u8; REPORT_SIZE] = [
        0x05, 0x1d, 0x01, 0x1b, 0x17, 0x04, 0x52, 0x28, 0x00, 0x01, 0x00, 0x00, 0x01, 0x02,
        0x03, 0x04, 0x05, 0x06, 0x07, 0x08, 0x09, 0x0a, 0x0b, 0x0c, 0x0d, 0x0e, 0x0f, 0x7b,
        0xf3, 0x00, 0x00, 0x00, 0x00,
    ];
    assert!(chunk_ack_ok(&resp, 0));
}

#[test]
fn chunk_ack_ok_rejects_an_echo_of_the_just_sent_address() {
    let mut resp: [u8; REPORT_SIZE] = [0u8; REPORT_SIZE];
    resp[2] = 0x01;
    resp[9] = 0x00;
    resp[10] = 0x00;
    assert!(!chunk_ack_ok(&resp, 0));
}

#[test]
fn captured_chunk_zero_report_is_reproduced_byte_for_byte() {
    // The captured success response for chunk 0 with data 00..0F carries the same data and
    // CRC (0xF37B) at the same offsets as the report sent; only the address field differs.
    let mut data = [0u8; CHUNK_LEN];
    for (i, b) in data.iter_mut().enumerate() {
        *b = i as u8;
    }
    let r = chunk_packet(0, &data);
    let expected: [u8; REPORT_SIZE] = [
        0x05, 0x1d, 0x01, 0x1b, 0x17, 0x04, 0x52, 0x28, 0x00, 0x00, 0x00, 0x00, 0x01, 0x02,
        0x03, 0x04, 0x05, 0x06, 0x07, 0x08, 0x09, 0x0a, 0x0b, 0x0c, 0x0d, 0x0e, 0x0f, 0x7b,
        0xf3, 0x00, 0x00, 0x00, 0x00,
    ];
    let mut with_sent_address = expected;
    with_sent_address[9] = 0x00;
    assert_eq!(r, with_sent_address);
}

#[test]
fn chunk_payload_checksums_to_zero() {
    let data = [0x5Au8; CHUNK_LEN];
    let r = chunk_packet(0x1230, &data);
    assert_eq!(crc16_modbus(&r[9..29]), 0);
}

#[test]
fn chunk_address_truncates_to_sixteen_bits() {
    let data = [0u8; CHUNK_LEN];
    // 0x10_0030 >> 4 = 0x1_0003, kept as 0x0003.
    let r = chunk_packet(0x10_0030, &data);
    assert_eq!(&r[9..11], &[0x03, 0x00]);
}

#[test]
fn chunk_address_reaches_the_version_opcode_at_0xff000() {
    let data = [0u8; CHUNK_LEN];
    assert_eq!(&chunk_packet(0xFEFF0, &data)[9..11], &[0xFF, 0xFE]);
    assert_eq!(&chunk_packet(0xFF000, &data)[9..11], &[0x00, 0xFF]);
}

#[test]
fn control_packets_pad_with_zeros() {
    let r = version_packet();
    assert_eq!(&r[0..5], &[0x05, 0x0B, 0x01, 0x09, 0x05]);
    assert!(r[11..].iter().all(|&b| b == 0));
    let f = finish_packet(0x1_2340);
    assert_eq!(&f[0..5], &[0x05, 0x0F, 0x01, 0x0D, 0x09]);
    assert_eq!(&f[9..15], &[0x02, 0xFF, 0x34, 0x12, 0xCB, 0xED]);
    assert!(f[15..].iter().all(|&b| b == 0));
}

#[test]
fn chunk_ack_ok_needs_status_one() {
    let mut resp = [0u8; REPORT_SIZE];
    resp[9] = 0x04;
    assert!(!chunk_ack_ok(&resp, 0x30));
    resp[2] = 0x01;
    assert!(chunk_ack_ok(&resp, 0x30));
    resp[10] = 0x01;
    assert!(!chunk_ack_ok(&resp, 0x30));
}
