use l2_login::crypt::{append_checksum, open_frame, seal_frame, verify_checksum, Crypt};
use l2_login::errors::Packet;

const KEY: &[u8] = b"_;v.]05-31!|+-%xT!^[$\x00";

#[test]
fn checksum_is_xor_of_words() {
    let mut b = vec![1, 0, 0, 0, 2, 0, 0, 0, 0, 0, 0, 0];
    append_checksum(&mut b);
    assert_eq!(&b[8..12], &[3, 0, 0, 0]);
    assert!(verify_checksum(&b));
    b[0] = 5;
    assert!(!verify_checksum(&b));
    assert!(!verify_checksum(&[0, 0, 0, 0]));
    assert!(!verify_checksum(&[0, 0, 0, 0, 0]));
}

#[test]
fn cipher_changes_and_restores_blocks() {
    let c = Crypt::from_u8_key(KEY).unwrap();
    let plain: Vec<u8> = (0..16).collect();
    let enc = c.crypt(&plain);
    assert_eq!(enc.len(), 16);
    assert_ne!(enc, plain);
    assert_eq!(c.decrypt(&enc), plain);
}

#[test]
fn key_length_is_checked() {
    assert!(Crypt::from_u8_key(&[1, 2, 3]).is_none());
    assert!(Crypt::from_u8_key(&[1; 57]).is_none());
    assert!(Crypt::from_u8_key(&[1; 4]).is_some());
    assert!(Crypt::from_u8_key(&[1; 56]).is_some());
}

#[test]
fn sealed_frame_opens_to_padded_payload() {
    let c = Crypt::from_u8_key(KEY).unwrap();
    let payload = vec![0x06, 1, 2, 3, 4, 5, 6];
    let frame = seal_frame(&c, &payload).unwrap();
    assert_eq!(frame.len(), 2 + 16);
    assert_eq!(u16::from_le_bytes([frame[0], frame[1]]) as usize, frame.len());
    let plain = open_frame(&c, &frame[2..]).unwrap();
    assert_eq!(plain.len(), 16);
    assert_eq!(&plain[..payload.len()], &payload[..]);
    assert!(plain[payload.len()..12].iter().all(|b| *b == 0));
    assert!(verify_checksum(&plain));
}

#[test]
fn tampered_frame_is_refused() {
    let c = Crypt::from_u8_key(KEY).unwrap();
    let mut frame = seal_frame(&c, &[1, 2, 3, 4, 5, 6, 7, 8, 9]).unwrap();
    frame[3] ^= 0x40;
    assert!(open_frame(&c, &frame[2..]).is_err());
    assert_eq!(open_frame(&c, &frame[2..5]), Err(Packet::Encryption));
}

#[test]
fn seal_refuses_oversized_payload() {
    let c = Crypt::from_u8_key(KEY).unwrap();
    assert_eq!(seal_frame(&c, &vec![0u8; 65530]), Err(Packet::Write { max_size: 65535 }));
    let ok = seal_frame(&c, &vec![0u8; 65520]).unwrap();
    assert_eq!(ok.len(), 65530);
}
