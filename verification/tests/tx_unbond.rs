use anoma::tx_unbond::{decode_signed_tx_data, decode_unbond, unbond_of_tx_data, UnbondTxError};
use anoma::types::{Address, Amount, InternalAddress, Signature};
use borsh::BorshSerialize;

fn established(hash: &str) -> Vec<u8> {
    let mut b = vec![0u8];
    b.extend(hash.to_string().try_to_vec().unwrap());
    b
}

fn unbond_bytes(validator: &[u8], amount: u64, source: Option<&[u8]>) -> Vec<u8> {
    let mut b = validator.to_vec();
    b.extend(amount.try_to_vec().unwrap());
    match source {
        None => b.push(0),
        Some(s) => {
            b.push(1);
            b.extend_from_slice(s);
        }
    }
    b
}

fn tx_data(payload: Option<Vec<u8>>) -> Vec<u8> {
    let mut b = payload.try_to_vec().unwrap();
    b.push(0);
    b.extend_from_slice(&[5u8; 64]);
    b
}

#[test]
fn self_bond_unbonding_is_decoded() {
    let payload = unbond_bytes(&established("validator"), 1_000, None);
    let u = unbond_of_tx_data(&tx_data(Some(payload))).unwrap();
    assert_eq!(u.validator, Address::Established("validator".to_string()));
    assert_eq!(u.amount, Amount { micro: 1_000 });
    assert_eq!(u.source, None);
}

#[test]
fn delegation_unbonding_is_decoded() {
    let mut source = vec![1u8, 0u8];
    source.extend("pkh".to_string().try_to_vec().unwrap());
    let payload = unbond_bytes(&established("v"), u64::MAX, Some(&source));
    let u = unbond_of_tx_data(&tx_data(Some(payload))).unwrap();
    assert_eq!(u.source, Some(Address::Implicit("pkh".to_string())));
    assert_eq!(u.amount.micro, u64::MAX);
}

#[test]
fn internal_addresses_are_decoded() {
    let payload = unbond_bytes(&[2, 0], 7, Some(&[2, 4]));
    let u = decode_unbond(&payload).unwrap();
    assert_eq!(u.validator, Address::Internal(InternalAddress::PoS));
    assert_eq!(u.source, Some(Address::Internal(InternalAddress::EthBridge)));
}

#[test]
fn unknown_internal_address_is_refused() {
    let payload = unbond_bytes(&[2, 5], 7, None);
    assert!(decode_unbond(&payload).is_err());
}

#[test]
fn unknown_address_kind_is_refused() {
    let payload = unbond_bytes(&[3], 7, None);
    assert!(decode_unbond(&payload).is_err());
}

#[test]
fn invalid_option_flag_is_refused() {
    let mut payload = established("v");
    payload.extend(7u64.try_to_vec().unwrap());
    payload.push(2);
    assert!(decode_unbond(&payload).is_err());
}

#[test]
fn invalid_utf8_hash_is_refused() {
    let payload = unbond_bytes(&[0, 2, 0, 0, 0, 0xff, 0xfe], 7, None);
    assert!(decode_unbond(&payload).is_err());
}

#[test]
fn missing_payload_is_refused() {
    assert!(matches!(unbond_of_tx_data(&tx_data(None)), Err(UnbondTxError::MissingData)));
}

#[test]
fn malformed_payload_is_refused() {
    let mut payload = unbond_bytes(&established("v"), 1, None);
    payload.push(9);
    assert!(matches!(unbond_of_tx_data(&tx_data(Some(payload))), Err(UnbondTxError::Unbond(_))));
}

#[test]
fn malformed_signed_data_is_refused() {
    let mut data = tx_data(None);
    data.pop();
    assert!(matches!(unbond_of_tx_data(&data), Err(UnbondTxError::SignedTxData(_))));
}

#[test]
fn signed_tx_data_keeps_payload_and_signature() {
    let s = decode_signed_tx_data(&tx_data(Some(vec![1, 2]))).unwrap();
    assert_eq!(s.data, Some(vec![1, 2]));
    assert_eq!(s.sig, Signature::Ed25519(vec![5u8; 64]));
}

#[test]
fn invalid_option_flag_error_is_the_borsh_error() {
    let mut payload = established("v");
    payload.extend(7u64.try_to_vec().unwrap());
    payload.push(2);
    let err = decode_unbond(&payload).unwrap_err();
    assert_eq!(
        err.to_string(),
        "Invalid Option representation: 2. The first byte must be 0 or 1"
    );
    let err = decode_unbond(&unbond_bytes(&[2, 9], 7, None)).unwrap_err();
    assert_eq!(err.to_string(), "Unexpected variant index: 9");
}
