use anoma::eth_bridge::{to_signed, to_update_queue, Error};
use anoma::types::Signature;
use borsh::BorshSerialize;

fn signed_bytes(data: &[u8], tag: u8, sig: [u8; 64]) -> Vec<u8> {
    (data.to_vec(), tag, sig).try_to_vec().unwrap()
}

#[test]
fn to_signed_decodes_data_and_signature() {
    let bytes = signed_bytes(&[1, 2, 3], 0, [7u8; 64]);
    assert_eq!(bytes.len(), 4 + 3 + 1 + 64);
    let signed = to_signed(&bytes).unwrap();
    assert_eq!(signed.data, vec![1, 2, 3]);
    assert_eq!(signed.sig, Signature::Ed25519(vec![7u8; 64]));
}

#[test]
fn to_signed_rejects_empty_data() {
    let bytes = signed_bytes(&[], 0, [1u8; 64]);
    assert!(matches!(to_signed(&bytes), Err(Error::EmptyData)));
}

#[test]
fn to_signed_rejects_truncated_signature() {
    let mut bytes = signed_bytes(&[9], 0, [1u8; 64]);
    bytes.pop();
    assert!(matches!(to_signed(&bytes), Err(Error::BorshDeserialization { .. })));
}

#[test]
fn to_signed_rejects_trailing_bytes() {
    let mut bytes = signed_bytes(&[9], 0, [1u8; 64]);
    bytes.push(0);
    assert!(matches!(to_signed(&bytes), Err(Error::BorshDeserialization { .. })));
}

#[test]
fn to_signed_rejects_unknown_signature_scheme() {
    let bytes = signed_bytes(&[9], 1, [1u8; 64]);
    assert!(matches!(to_signed(&bytes), Err(Error::BorshDeserialization { .. })));
}

#[test]
fn to_signed_rejects_overlong_length() {
    let bytes = vec![200, 0, 0, 0, 1, 2];
    assert!(matches!(to_signed(&bytes), Err(Error::BorshDeserialization { .. })));
}

#[test]
fn to_signed_rejects_empty_input() {
    assert!(matches!(to_signed(&[]), Err(Error::BorshDeserialization { .. })));
}

#[test]
fn to_update_queue_accepts_only_empty_encoding() {
    assert!(to_update_queue(&[]).is_ok());
    assert!(matches!(to_update_queue(&[0]), Err(Error::BorshDeserialization { .. })));
}

#[test]
fn to_signed_errors_are_borsh_errors() {
    let mut bytes = signed_bytes(&[9], 0, [1u8; 64]);
    bytes.push(0);
    match to_signed(&bytes) {
        Err(Error::BorshDeserialization { source }) => {
            assert_eq!(source.kind(), std::io::ErrorKind::InvalidData);
            assert_eq!(source.to_string(), "Not all bytes read");
        }
        _ => panic!("expected a decoding error"),
    }
    let bytes = signed_bytes(&[9], 3, [1u8; 64]);
    match to_signed(&bytes) {
        Err(Error::BorshDeserialization { source }) => {
            assert_eq!(source.kind(), std::io::ErrorKind::InvalidInput);
            assert_eq!(source.to_string(), "Unexpected variant index: 3");
        }
        _ => panic!("expected a decoding error"),
    }
}

#[test]
fn to_update_queue_error_is_the_borsh_error() {
    match to_update_queue(&[1, 2]) {
        Err(Error::BorshDeserialization { source }) => {
            assert_eq!(source.to_string(), "Not all bytes read");
        }
        _ => panic!("expected a decoding error"),
    }
}
