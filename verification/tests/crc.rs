use telink_ota::crc::crc16_modbus;

#[test]
fn matches_published_check_value() {
    // Standard CRC-16/MODBUS check value (poly 0x8005, refin/refout, init 0xFFFF).
    assert_eq!(crc16_modbus(b"123456789"), 0x4b37);
}

#[test]
fn crc_of_empty_input_is_the_initial_register() {
    assert_eq!(crc16_modbus(&[]), 0xFFFF);
}

#[test]
fn crc_of_a_single_zero_byte() {
    // 0xFFFF ^ 0x00 run through eight reflected steps with 0xA001.
    assert_eq!(crc16_modbus(&[0x00]), 0x40BF);
}

#[test]
fn crc_followed_by_its_own_checksum_is_zero() {
    let data = b"123456789";
    let c = crc16_modbus(data);
    let mut framed = data.to_vec();
    framed.extend_from_slice(&c.to_le_bytes());
    assert_eq!(crc16_modbus(&framed), 0);
}

#[test]
fn crc_differs_when_one_byte_changes() {
    assert_ne!(crc16_modbus(b"123456789"), crc16_modbus(b"123456780"));
}
