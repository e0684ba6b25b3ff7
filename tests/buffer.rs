use l2_login::buffer::{SendablePacketBuffer, MAX_FRAME};
use l2_login::errors::Packet;
use l2_login::reader::ReadablePacketBuffer;

#[test]
fn new_buffer_reserves_length_prefix() {
    let b = SendablePacketBuffer::new();
    assert_eq!(b.get_cursor_position(), 2);
    assert_eq!(b.get_size(), 32);
    assert_eq!(b.get_data(), vec![2, 0]);
}

#[test]
fn integers_are_little_endian() {
    let mut b = SendablePacketBuffer::new();
    b.write_i16(0x0102).unwrap();
    b.write_i32(0x0A0B0C0D).unwrap();
    b.write_i64(-2).unwrap();
    b.write_u32(0xC621).unwrap();
    let d = b.get_data();
    assert_eq!(d.len(), 2 + 2 + 4 + 8 + 4);
    assert_eq!(&d[0..2], &[20, 0]);
    assert_eq!(&d[2..4], &[0x02, 0x01]);
    assert_eq!(&d[4..8], &[0x0D, 0x0C, 0x0B, 0x0A]);
    assert_eq!(&d[8..16], &[0xFE, 0xFF, 0xFF, 0xFF, 0xFF, 0xFF, 0xFF, 0xFF]);
    assert_eq!(&d[16..20], &[0x21, 0xC6, 0, 0]);
}

#[test]
fn bools_and_signed_bytes() {
    let mut b = SendablePacketBuffer::new();
    b.write_i8(-1).unwrap();
    b.write_i8_from_bool(true).unwrap();
    b.write_i16_from_bool(true).unwrap();
    b.write_i32_from_bool(false).unwrap();
    b.write_i64_from_bool(true).unwrap();
    b.write_i8_bytes(&[-2, 3]).unwrap();
    let d = b.get_data();
    assert_eq!(&d[2..], &[0xFF, 1, 1, 0, 0, 0, 0, 0, 1, 0, 0, 0, 0, 0, 0, 0, 0xFE, 3]);
}

#[test]
fn strings_are_utf16le_with_terminator() {
    let mut b = SendablePacketBuffer::new();
    b.write_string(Some("ab")).unwrap();
    b.write_string(None).unwrap();
    b.write_sized_string(Some("é")).unwrap();
    let d = b.get_data();
    assert_eq!(&d[2..], &[b'a', 0, b'b', 0, 0, 0, 0, 0, 2, 0, 0xE9, 0]);
}

#[test]
fn frame_of_largest_size_is_accepted() {
    let mut b = SendablePacketBuffer::new();
    for _ in 0..(MAX_FRAME - 2) {
        b.write(7).unwrap();
    }
    assert_eq!(b.get_cursor_position(), 65535);
    let d = b.get_data();
    assert_eq!(d.len(), 65535);
    assert_eq!(&d[0..2], &[0xFF, 0xFF]);
}

#[test]
fn frame_one_byte_longer_is_rejected() {
    let mut b = SendablePacketBuffer::new();
    b.write_bytes(&vec![1u8; MAX_FRAME - 2]).unwrap();
    assert_eq!(b.write(1), Err(Packet::Write { max_size: 65535 }));
    assert_eq!(b.get_cursor_position(), 65535);
    let mut c = SendablePacketBuffer::new();
    assert_eq!(c.write_bytes(&vec![1u8; MAX_FRAME - 1]), Err(Packet::Write { max_size: 65535 }));
    assert_eq!(c.get_cursor_position(), 65535);
    assert_eq!(SendablePacketBuffer::get_max_size(), 65535);
}

#[test]
fn from_bytes_and_resize_keep_frame() {
    let mut b = SendablePacketBuffer::from_bytes(&[0, 0, 9, 8]);
    assert_eq!(b.get_cursor_position(), 4);
    b.resize_buffer(10);
    assert_eq!(b.get_size(), 10);
    assert_eq!(b.get_data(), vec![4, 0, 9, 8]);
}

#[test]
fn reader_reads_what_buffer_wrote() {
    let mut b = SendablePacketBuffer::new();
    b.write_u8(5).unwrap();
    b.write_i16(-300).unwrap();
    b.write_i32(-123456).unwrap();
    b.write_i64(1 << 40).unwrap();
    b.write_string(Some("alice")).unwrap();
    let d = b.get_data();
    let mut r = ReadablePacketBuffer::new(d[2..].to_vec());
    assert_eq!(r.read_byte(), Some(5));
    assert_eq!(r.read_i16(), Some(-300));
    assert_eq!(r.read_i32(), Some(-123456));
    assert_eq!(r.read_i64(), Some(1 << 40));
    assert_eq!(r.read_string(), Some("alice".to_string()));
    assert_eq!(r.remaining(), 0);
    assert_eq!(r.read_byte(), None);
}

#[test]
fn reader_refuses_unterminated_string() {
    let mut r = ReadablePacketBuffer::new(vec![b'a', 0, b'b']);
    assert_eq!(r.read_string(), None);
    assert_eq!(r.remaining(), 3);
}

#[test]
fn supplementary_characters_use_surrogate_pairs() {
    let mut b = SendablePacketBuffer::new();
    b.write_string(Some("a\u{1F600}")).unwrap();
    let d = b.get_data();
    assert_eq!(&d[2..], &[b'a', 0, 0x3D, 0xD8, 0x00, 0xDE, 0, 0]);
    let mut r = ReadablePacketBuffer::new(d[2..].to_vec());
    assert_eq!(r.read_string(), Some("a\u{1F600}".to_string()));
}

#[test]
fn lone_surrogate_reads_as_replacement() {
    let mut r = ReadablePacketBuffer::new(vec![0x00, 0xD8, b'x', 0, 0, 0]);
    assert_eq!(r.read_string(), Some("\u{FFFD}x".to_string()));
}
