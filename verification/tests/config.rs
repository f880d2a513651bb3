//! Configuration slot codec behaviour.

use matrix_controller::config::{
    decode_entry, encode_entry, offset_of_id, ConfigError, PW_STORE_ID, SSID_STORE_ID,
};

#[test]
fn slots_sit_back_to_back_above_the_base() {
    assert_eq!(offset_of_id(SSID_STORE_ID), 0x9000);
    assert_eq!(offset_of_id(PW_STORE_ID), 0x9000 + 64);
    assert_eq!(offset_of_id(5), 0x9000 + 5 * 64);
}

#[test]
fn encode_pads_with_zeros() {
    let buf = encode_entry(&b"network".to_vec()).unwrap();
    assert_eq!(buf.len(), 64);
    assert_eq!(&buf[..7], b"network");
    assert!(buf[7..].iter().all(|&b| b == 0));
}

#[test]
fn encode_refuses_oversized_values() {
    let long = vec![b'a'; 65];
    assert_eq!(encode_entry(&long), Err(ConfigError::ValueTooLong));
    let exact = vec![b'a'; 64];
    assert_eq!(encode_entry(&exact).unwrap(), exact);
}

#[test]
fn decode_strips_the_padding() {
    let buf = encode_entry(&b"pass word".to_vec()).unwrap();
    assert_eq!(decode_entry(&buf), b"pass word".to_vec());
}

#[test]
fn decode_of_blank_slot_is_empty() {
    assert_eq!(decode_entry(&vec![0u8; 64]), Vec::<u8>::new());
    assert_eq!(decode_entry(&Vec::new()), Vec::<u8>::new());
}

#[test]
fn decode_keeps_interior_zeros() {
    let mut buf = vec![0u8; 64];
    buf[2] = b'a';
    buf[4] = b'b';
    assert_eq!(decode_entry(&buf), vec![b'a', 0, b'b']);
}
