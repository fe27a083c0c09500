use pmbus_codegen::smbus::{block_write_header, parse_block_response, send_byte_frame,
    word_from_le, write_byte_frame, write_word_frame, SMBUS_MAX_BLOCK_SIZE};
use pmbus_codegen::table::dec_string;

#[test]
fn send_and_write_frames_hold_command_then_data() {
    assert_eq!(send_byte_frame(0x42), vec![0x42]);
    assert_eq!(write_byte_frame(0x01, 0xAB), vec![0x01, 0xAB]);
}

#[test]
fn word_frames_are_little_endian() {
    assert_eq!(write_word_frame(0x21, 0x1234), vec![0x21, 0x34, 0x12]);
    assert_eq!(write_word_frame(0x21, 0x00FF), vec![0x21, 0xFF, 0x00]);
}

#[test]
fn word_reassembly_inverts_the_split() {
    assert_eq!(word_from_le(0x34, 0x12), 0x1234);
    for w in [0u16, 1, 255, 256, 0x1234, 0xFFFF] {
        let frame = write_word_frame(0, w);
        assert_eq!(word_from_le(frame[1], frame[2]), w);
    }
}

#[test]
fn block_write_header_holds_command_then_length() {
    assert_eq!(block_write_header(0x99, &[1, 2, 3]), vec![0x99, 3]);
    assert_eq!(block_write_header(0x99, &[]), vec![0x99, 0]);
    let full = [0u8; 32];
    assert_eq!(block_write_header(0x05, &full), vec![0x05, 32]);
    assert_eq!(SMBUS_MAX_BLOCK_SIZE, 32);
}

#[test]
fn block_response_payload_follows_declared_length() {
    assert_eq!(parse_block_response(&[3, 10, 20, 30]), Some(vec![10, 20, 30]));
    assert_eq!(parse_block_response(&[0]), Some(vec![]));
    // An empty response has no length byte.
    assert_eq!(parse_block_response(&[]), None);
    // The payload is shorter than declared.
    assert_eq!(parse_block_response(&[3, 10, 20]), None);
    // The payload is longer than declared.
    assert_eq!(parse_block_response(&[1, 10, 20]), None);
    // A declared length over the block bound is capped at the bound.
    let mut over = vec![200u8];
    over.extend(std::iter::repeat(7u8).take(32));
    assert_eq!(parse_block_response(&over), Some(vec![7u8; 32]));
}

#[test]
fn decimal_rendering_is_exact() {
    assert_eq!(dec_string(0), "0");
    assert_eq!(dec_string(7), "7");
    assert_eq!(dec_string(10), "10");
    assert_eq!(dec_string(99), "99");
    assert_eq!(dec_string(100), "100");
    assert_eq!(dec_string(255), "255");
}
