//! Decoding of the Ethereum bridge's transaction payloads; useful for both
//! the transaction side and the validity predicate side.
use vstd::prelude::*;
use crate::borsh_de::{
    de_byte_vec, de_unit_from_slice, enc_byte_vec, lemma_byte_vec_round_trip, spec_byte_vec,
};
use crate::types::{
    decode_signature, enc_signature, encodable_signature, lemma_signature_round_trip,
    spec_signature, Signature, SignatureView,
};

verus! {

/// Why a payload could not be decoded.
#[derive(Debug)]
pub enum Error {
    /// The bytes are not the Borsh encoding of the expected value.
    BorshDeserialization { source: std::io::Error },
    /// The signed payload holds no data.
    EmptyData,
}

/// Some data with a signature over it.
#[derive(Debug, Clone, PartialEq, Eq)]
pub struct Signed<T> {
    /// The signed data.
    pub data: T,
    /// The signature over the data.
    pub sig: Signature,
}

/// The value of a [`Signed`].
pub struct SignedView<V> {
    pub data: V,
    pub sig: SignatureView,
}

impl<T: View> View for Signed<T> {
    type V = SignedView<T::V>;

    open spec fn view(&self) -> SignedView<T::V> {
        SignedView { data: self.data@, sig: self.sig@ }
    }
}

/// The bytes of a `Signed<Vec<u8>>`: the data as a byte vector, then the
/// signature.
pub open spec fn spec_signed_bytes(b: Seq<u8>) -> Option<(SignedView<Seq<u8>>, Seq<u8>)> {
    match spec_byte_vec(b) {
        Some((data, rest)) => match spec_signature(rest) {
            Some((sig, rest2)) => Some((SignedView { data, sig }, rest2)),
            None => None,
        },
        None => None,
    }
}

/// The `Signed<Vec<u8>>` that the whole of `b` encodes, with no byte left
/// over, if there is one.
pub open spec fn signed_bytes_of(b: Seq<u8>) -> Option<SignedView<Seq<u8>>> {
    match spec_signed_bytes(b) {
        Some((s, rest)) => if rest.len() == 0 {
            Some(s)
        } else {
            None
        },
        None => None,
    }
}

/// Decode signed data. Fails with `BorshDeserialization` when `data` is not
/// the encoding of a `Signed<Vec<u8>>`, and with `EmptyData` when it is but
/// the signed data are empty.
///
/// The `BorshDeserialization` error carries the error of the Borsh decoder
/// that refused the bytes; the contract does not state which error that is.
pub fn to_signed(data: &[u8]) -> (res: Result<Signed<Vec<u8>>, Error>)
    ensures
        signed_bytes_of(data@) is None <==> res matches Err(Error::BorshDeserialization { .. }),
        signed_bytes_of(data@) matches Some(s) && s.data.len() == 0
            <==> res matches Err(Error::EmptyData),
        signed_bytes_of(data@) matches Some(s) && s.data.len() > 0 <==> res is Ok,
        res matches Ok(s) ==> signed_bytes_of(data@) == Some(s@),
{
    let (bytes, rest) = match de_byte_vec(data) {
        Ok(p) => p,
        Err(e) => return Err(Error::BorshDeserialization { source: e }),
    };
    let (sig, rest) = match decode_signature(rest) {
        Ok(p) => p,
        Err(e) => return Err(Error::BorshDeserialization { source: e }),
    };
    match de_unit_from_slice(rest) {
        Ok(()) => {},
        Err(e) => return Err(Error::BorshDeserialization { source: e }),
    }
    if bytes.len() == 0 {
        return Err(Error::EmptyData);
    }
    Ok(Signed { data: bytes, sig })
}

/// An update to the queue of Ethereum bridge transfers. It carries no
/// fields yet, so its encoding is empty.
#[derive(Debug, Clone, Copy, PartialEq, Eq, Structural)]
pub struct UpdateQueue {}

/// Decode an [`UpdateQueue`]: it succeeds exactly on the empty encoding.
pub fn to_update_queue(data: &[u8]) -> (res: Result<UpdateQueue, Error>)
    ensures
        res is Ok <==> data@.len() == 0,
        res is Err ==> res matches Err(Error::BorshDeserialization { .. }),
{
    match de_unit_from_slice(data) {
        Ok(()) => Ok(UpdateQueue {}),
        Err(e) => Err(Error::BorshDeserialization { source: e }),
    }
}


/// Decoding gives back all signed data that were encoded: for non-empty
/// data `d` and a 64-byte Ed25519 signature, the encoding of the signed
/// data decodes to exactly `d` and that signature, so `to_signed` returns
/// them.
pub proof fn lemma_to_signed_round_trip(d: Seq<u8>, sig: SignatureView)
    requires
        0 < d.len() < 0x1_0000_0000,
        encodable_signature(sig),
    ensures
        signed_bytes_of(enc_byte_vec(d) + enc_signature(sig)) == Some(SignedView { data: d, sig }),
{
    lemma_byte_vec_round_trip(d, enc_signature(sig));
    lemma_signature_round_trip(sig, Seq::<u8>::empty());
    assert(enc_signature(sig) + Seq::<u8>::empty() =~= enc_signature(sig));
}
} // verus!
