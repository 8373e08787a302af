use cypher::client::onion::padding::{pad, unpad, PADDING_BUCKETS};
use cypher::common::error::Error;

#[test]
fn roundtrip_small() {
    let data = b"hello";
    let padded = pad(data).unwrap();
    assert_eq!(padded.len(), 512);
    assert_eq!(unpad(&padded).unwrap(), data);
}

#[test]
fn roundtrip_boundary() {
    let data = vec![0xAB; 510];
    let padded = pad(&data).unwrap();
    assert_eq!(padded.len(), 512);
    assert_eq!(unpad(&padded).unwrap(), &data[..]);
}

#[test]
fn roundtrip_exceeds_first_bucket() {
    let data = vec![0xCD; 511];
    let padded = pad(&data).unwrap();
    assert_eq!(padded.len(), 1024);
    assert_eq!(unpad(&padded).unwrap(), &data[..]);
}

#[test]
fn roundtrip_max_bucket() {
    let data = vec![0xFF; 8190];
    let padded = pad(&data).unwrap();
    assert_eq!(padded.len(), 8192);
    assert_eq!(unpad(&padded).unwrap(), &data[..]);
}

#[test]
fn oversize_fails() {
    let data = vec![0x00; 8191];
    assert!(pad(&data).is_err());
}

#[test]
fn unpad_too_short() {
    assert!(unpad(&[]).is_err());
    assert!(unpad(&[0x01]).is_err());
}

#[test]
fn unpad_corrupt_length() {
    let mut buf = vec![0u8; 512];
    buf[0] = 0xE8;
    buf[1] = 0x03;
    assert!(unpad(&buf).is_err());
}

#[test]
fn all_buckets() {
    for &bucket in &PADDING_BUCKETS {
        let max_data = bucket - 2;
        let data = vec![0x42; max_data];
        let padded = pad(&data).unwrap();
        assert_eq!(padded.len(), bucket);
        assert_eq!(unpad(&padded).unwrap(), &data[..]);
    }
}

#[test]
fn pad_layout_is_length_prefix_then_zeros() {
    let padded = pad(&[7, 8, 9]).unwrap();
    assert_eq!(&padded[..5], &[3, 0, 7, 8, 9]);
    assert!(padded[5..].iter().all(|b| *b == 0));
}

#[test]
fn pad_empty_plaintext() {
    let padded = pad(&[]).unwrap();
    assert_eq!(padded.len(), 512);
    assert_eq!(unpad(&padded).unwrap(), &[] as &[u8]);
}

#[test]
fn pad_errors_are_protocol_errors() {
    assert!(matches!(pad(&vec![0u8; 9000]), Err(Error::Protocol(_))));
    assert!(matches!(unpad(&[5]), Err(Error::Protocol(_))));
    assert!(matches!(unpad(&[5, 0, 1]), Err(Error::Protocol(_))));
}

#[test]
fn unpad_exact_prefix_length() {
    assert_eq!(unpad(&[2, 0, 10, 20]).unwrap(), &[10, 20]);
    assert_eq!(unpad(&[1, 0, 10, 20]).unwrap(), &[10]);
}

#[test]
fn padding_error_texts() {
    match pad(&vec![0u8; 9000]) {
        Err(Error::Protocol(m)) => assert_eq!(m, "plaintext too large for padding: 9000 bytes (max 8190)"),
        _ => panic!("expected a protocol error"),
    }
    match unpad(&[0x10, 0x00, 1, 2, 3]) {
        Err(Error::Protocol(m)) => assert_eq!(m, "padding length prefix 16 exceeds payload size 3"),
        _ => panic!("expected a protocol error"),
    }
    match unpad(&[1]) {
        Err(Error::Protocol(m)) => assert_eq!(m, "padded payload too short"),
        _ => panic!("expected a protocol error"),
    }
}
