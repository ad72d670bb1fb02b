//! The payload of a proof-of-stake unbonding transaction, which removes
//! staked tokens from a self-bond or a delegation, to be withdrawn in or
//! after the unbonding epoch.
use vstd::prelude::*;
use crate::borsh_de::{
    de_opt_byte_vec, de_u64, de_unit_from_slice, enc_opt_byte_vec, enc_u64,
    lemma_opt_byte_vec_round_trip, lemma_u64_round_trip, opt_bytes_view, spec_opt_byte_vec, spec_u64,
};
use crate::types::{
    decode_address, decode_opt_address, decode_signature, enc_address, enc_opt_address,
    enc_signature, encodable_address, encodable_signature, lemma_address_round_trip,
    lemma_opt_address_round_trip, lemma_signature_round_trip, opt_address_view, spec_address,
    spec_opt_address, spec_signature, Address, AddressView, Amount, Signature, SignatureView,
};

verus! {

/// The data of a signed transaction: an optional payload and a signature.
#[derive(Debug, Clone, PartialEq, Eq)]
pub struct SignedTxData {
    /// The transaction's payload, if it has one.
    pub data: Option<Vec<u8>>,
    /// The signature over the transaction.
    pub sig: Signature,
}

/// The value of a [`SignedTxData`].
pub struct SignedTxDataView {
    pub data: Option<Seq<u8>>,
    pub sig: SignatureView,
}

impl View for SignedTxData {
    type V = SignedTxDataView;

    open spec fn view(&self) -> SignedTxDataView {
        SignedTxDataView { data: opt_bytes_view(self.data), sig: self.sig@ }
    }
}

/// An unbonding of tokens from a validator.
#[derive(Debug, Clone, PartialEq, Eq)]
pub struct Unbond {
    /// The validator's address.
    pub validator: Address,
    /// The amount of tokens.
    pub amount: Amount,
    /// The delegator's address; absent for a self-bond, whose source is the
    /// validator.
    pub source: Option<Address>,
}

/// The value of an [`Unbond`].
pub struct UnbondView {
    pub validator: AddressView,
    pub amount: u64,
    pub source: Option<AddressView>,
}

impl View for Unbond {
    type V = UnbondView;

    open spec fn view(&self) -> UnbondView {
        UnbondView {
            validator: self.validator@,
            amount: self.amount.micro,
            source: opt_address_view(self.source),
        }
    }
}

/// The [`SignedTxData`] that the whole of `b` encodes: the optional payload,
/// then the signature, with no byte left over.
pub open spec fn signed_tx_data_of(b: Seq<u8>) -> Option<SignedTxDataView> {
    match spec_opt_byte_vec(b) {
        Some((data, rest)) => match spec_signature(rest) {
            Some((sig, rest2)) => if rest2.len() == 0 {
                Some(SignedTxDataView { data, sig })
            } else {
                None
            },
            None => None,
        },
        None => None,
    }
}

/// The [`Unbond`] that the whole of `b` encodes: the validator, the amount,
/// then the optional source, with no byte left over.
pub open spec fn unbond_of(b: Seq<u8>) -> Option<UnbondView> {
    match spec_address(b) {
        Some((validator, rest)) => match spec_u64(rest) {
            Some((amount, rest2)) => match spec_opt_address(rest2) {
                Some((source, rest3)) => if rest3.len() == 0 {
                    Some(UnbondView { validator, amount, source })
                } else {
                    None
                },
                None => None,
            },
            None => None,
        },
        None => None,
    }
}

/// Why the data of an unbonding transaction were refused.
#[derive(Debug)]
pub enum UnbondTxError {
    /// The bytes are not the encoding of a signed transaction's data.
    SignedTxData(std::io::Error),
    /// The signed transaction carries no payload.
    MissingData,
    /// The payload is not the encoding of an unbonding.
    Unbond(std::io::Error),
}

/// Decodes a [`SignedTxData`] from the whole of `data`.
pub fn decode_signed_tx_data(data: &[u8]) -> (res: Result<SignedTxData, std::io::Error>)
    ensures
        res is Ok <==> signed_tx_data_of(data@) is Some,
        res matches Ok(s) ==> signed_tx_data_of(data@) == Some(s@),
{
    let (payload, rest) = match de_opt_byte_vec(data) {
        Ok(p) => p,
        Err(e) => return Err(e),
    };
    let (sig, rest) = match decode_signature(rest) {
        Ok(p) => p,
        Err(e) => return Err(e),
    };
    match de_unit_from_slice(rest) {
        Ok(()) => {},
        Err(e) => return Err(e),
    }
    Ok(SignedTxData { data: payload, sig })
}

/// Decodes an [`Unbond`] from the whole of `data`.
pub fn decode_unbond(data: &[u8]) -> (res: Result<Unbond, std::io::Error>)
    ensures
        res is Ok <==> unbond_of(data@) is Some,
        res matches Ok(u) ==> unbond_of(data@) == Some(u@),
{
    let (validator, rest) = match decode_address(data) {
        Ok(p) => p,
        Err(e) => return Err(e),
    };
    let (micro, rest) = match de_u64(rest) {
        Ok(p) => p,
        Err(e) => return Err(e),
    };
    let (source, rest) = match decode_opt_address(rest) {
        Ok(p) => p,
        Err(e) => return Err(e),
    };
    match de_unit_from_slice(rest) {
        Ok(()) => {},
        Err(e) => return Err(e),
    }
    Ok(Unbond { validator, amount: Amount { micro }, source })
}

/// The unbonding that an unbonding transaction's data ask for: the data are
/// a signed transaction whose payload is the encoded [`Unbond`]. Each way in
/// which the data can be refused has its own error.
pub fn unbond_of_tx_data(tx_data: &[u8]) -> (res: Result<Unbond, UnbondTxError>)
    ensures
        signed_tx_data_of(tx_data@) is None <==> res matches Err(UnbondTxError::SignedTxData(_)),
        signed_tx_data_of(tx_data@) matches Some(s) && s.data is None
            <==> res matches Err(UnbondTxError::MissingData),
        signed_tx_data_of(tx_data@) matches Some(s) && s.data matches Some(p)
            && unbond_of(p) is None <==> res matches Err(UnbondTxError::Unbond(_)),
        res matches Ok(u) ==> signed_tx_data_of(tx_data@) matches Some(s) && s.data matches Some(p)
            && unbond_of(p) == Some(u@),
        (signed_tx_data_of(tx_data@) matches Some(s) && s.data matches Some(p)
            && unbond_of(p) is Some) ==> res is Ok,
{
    let signed = match decode_signed_tx_data(tx_data) {
        Ok(s) => s,
        Err(e) => return Err(UnbondTxError::SignedTxData(e)),
    };
    let payload = match signed.data {
        Some(p) => p,
        None => return Err(UnbondTxError::MissingData),
    };
    match decode_unbond(payload.as_slice()) {
        Ok(u) => Ok(u),
        Err(e) => Err(UnbondTxError::Unbond(e)),
    }
}


/// The encoding of an unbonding: the validator, the amount, then the
/// optional source.
pub open spec fn enc_unbond(u: UnbondView) -> Seq<u8> {
    enc_address(u.validator) + enc_u64(u.amount) + enc_opt_address(u.source)
}

/// An unbonding whose addresses have encodings.
pub open spec fn encodable_unbond(u: UnbondView) -> bool {
    &&& encodable_address(u.validator)
    &&& u.source matches Some(x) ==> encodable_address(x)
}

/// Decoding gives back every unbonding that was encoded: the validator, the
/// amount, and the source, present exactly when it was, of whatever kind.
pub proof fn lemma_unbond_round_trip(u: UnbondView)
    requires
        encodable_unbond(u),
    ensures
        unbond_of(enc_unbond(u)) == Some(u),
{
    let e = Seq::<u8>::empty();
    let src = enc_opt_address(u.source);
    let amt = enc_u64(u.amount);
    assert(enc_unbond(u) =~= enc_address(u.validator) + (amt + (src + e)));
    lemma_address_round_trip(u.validator, amt + (src + e));
    lemma_u64_round_trip(u.amount, src + e);
    lemma_opt_address_round_trip(u.source, e);
}

/// The encoding of a signed transaction's data: the optional payload, then
/// the signature.
pub open spec fn enc_signed_tx_data(s: SignedTxDataView) -> Seq<u8> {
    enc_opt_byte_vec(s.data) + enc_signature(s.sig)
}

/// Decoding gives back every signed transaction's data that were encoded.
pub proof fn lemma_signed_tx_data_round_trip(s: SignedTxDataView)
    requires
        s.data matches Some(p) ==> p.len() < 0x1_0000_0000,
        encodable_signature(s.sig),
    ensures
        signed_tx_data_of(enc_signed_tx_data(s)) == Some(s),
{
    let e = Seq::<u8>::empty();
    assert(enc_signed_tx_data(s) =~= enc_opt_byte_vec(s.data) + (enc_signature(s.sig) + e));
    lemma_opt_byte_vec_round_trip(s.data, enc_signature(s.sig) + e);
    lemma_signature_round_trip(s.sig, e);
}

/// The data of an unbonding transaction that carries the encoding of an
/// unbonding `u` as its payload ask for exactly `u`: `unbond_of_tx_data`
/// returns it.
pub proof fn lemma_unbond_tx_round_trip(u: UnbondView, sig: SignatureView)
    requires
        encodable_unbond(u),
        enc_unbond(u).len() < 0x1_0000_0000,
        encodable_signature(sig),
    ensures
        signed_tx_data_of(enc_signed_tx_data(SignedTxDataView { data: Some(enc_unbond(u)), sig }))
            == Some(SignedTxDataView { data: Some(enc_unbond(u)), sig }),
        unbond_of(enc_unbond(u)) == Some(u),
{
    lemma_signed_tx_data_round_trip(SignedTxDataView { data: Some(enc_unbond(u)), sig });
    lemma_unbond_round_trip(u);
}
} // verus!
