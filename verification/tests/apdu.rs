use rustic_reader::apdu::{
    authenticate_command, check_authentication, decode_status_word, extract_payload, is_success,
    read_command, KEY_TYPE_A, KEY_TYPE_B, STATUS_SUCCESS,
};
use rustic_reader::ReaderError;

#[test]
fn status_word_is_big_endian() {
    assert_eq!(decode_status_word(&[0x90, 0x00]), Some(0x9000));
    assert_eq!(decode_status_word(&[0x63, 0x00]), Some(0x6300));
    assert_eq!(decode_status_word(&[0x00, 0x90]), Some(0x0090));
    assert_eq!(decode_status_word(&[1, 2, 3, 0xAB, 0xCD]), Some(0xABCD));
    assert_eq!(decode_status_word(&[0xFF, 0xFF]), Some(0xFFFF));
    assert_eq!(STATUS_SUCCESS, 0x9000);
}

#[test]
fn short_response_has_no_status_word() {
    assert_eq!(decode_status_word(&[]), None);
    assert_eq!(decode_status_word(&[0x90]), None);
    assert!(!is_success(&[]));
    assert!(!is_success(&[0x90]));
    assert!(!is_success(&[0x00]));
}

#[test]
fn only_9000_is_success() {
    assert!(is_success(&[0x90, 0x00]));
    assert!(is_success(&[0xAA, 0x90, 0x00]));
    assert!(!is_success(&[0x90, 0x01]));
    assert!(!is_success(&[0x91, 0x00]));
    assert!(!is_success(&[0x00, 0x90]));
    assert!(!is_success(&[0x90, 0x00, 0x00]));
}

#[test]
fn authenticate_command_layout() {
    assert_eq!(
        authenticate_command(4, KEY_TYPE_A),
        vec![0xff, 0x86, 0x00, 0x00, 0x05, 0x01, 0x00, 0x04, 0x60, 0x00]
    );
    assert_eq!(
        authenticate_command(62, KEY_TYPE_B),
        vec![0xff, 0x86, 0x00, 0x00, 0x05, 0x01, 0x00, 0x3e, 0x61, 0x00]
    );
    assert_eq!(
        authenticate_command(0x1234, 0x60),
        vec![0xff, 0x86, 0x00, 0x00, 0x05, 0x01, 0x12, 0x34, 0x60, 0x00]
    );
    assert_eq!(authenticate_command(0, 0).len(), 10);
}

#[test]
fn read_command_layout() {
    assert_eq!(read_command(0xff, 0x0b, 4, 16), vec![0xff, 0x0b, 0x00, 0x04, 0x10]);
    assert_eq!(read_command(0xff, 0xb0, 0x0102, 0), vec![0xff, 0xb0, 0x01, 0x02, 0x00]);
    assert_eq!(read_command(0x00, 0x01, 0xFFFF, 0xFF), vec![0x00, 0x01, 0xFF, 0xFF, 0xFF]);
}

#[test]
fn authentication_succeeds_only_on_9000() {
    assert_eq!(check_authentication(&[0x90, 0x00]), Ok(()));
    assert_eq!(check_authentication(&[0x63, 0x00]), Err(ReaderError::AuthenticationFailed));
    assert_eq!(check_authentication(&[]), Err(ReaderError::AuthenticationFailed));
    assert_eq!(check_authentication(&[0x90]), Err(ReaderError::AuthenticationFailed));
    assert_eq!(check_authentication(&[0x12, 0x90, 0x00]), Ok(()));
}

#[test]
fn payload_is_everything_but_the_status_word() {
    assert_eq!(extract_payload(&[1, 2, 3, 0x90, 0x00]), Ok(vec![1, 2, 3]));
    assert_eq!(extract_payload(&[0x90, 0x00]), Ok(Vec::new()));
    assert_eq!(extract_payload(&[0x90, 0x00, 0x90, 0x00]), Ok(vec![0x90, 0x00]));
}

#[test]
fn read_fails_on_any_other_status_word() {
    assert_eq!(extract_payload(&[1, 2, 3, 0x6A, 0x82]), Err(ReaderError::ReadFailed));
    assert_eq!(extract_payload(&[0x63, 0x00]), Err(ReaderError::ReadFailed));
    assert_eq!(extract_payload(&[]), Err(ReaderError::ReadFailed));
    assert_eq!(extract_payload(&[0x90]), Err(ReaderError::ReadFailed));
    assert_eq!(extract_payload(&[0x00]), Err(ReaderError::ReadFailed));
}
