//! Addresses, signatures and token amounts, with their Borsh layouts.
use vstd::prelude::*;
use crate::borsh_de::{
    de_array64, de_option_flag, de_string, de_u8, enc_string, encodable_string,
    lemma_array64_round_trip, lemma_string_round_trip, lemma_u8_round_trip, spec_array64,
    spec_string, spec_u8, unexpected_variant,
};

verus! {

/// A signature. The wire form is a variant index byte followed by the
/// variant's payload; index 0 is an Ed25519 signature of 64 bytes.
#[derive(Debug, Clone, PartialEq, Eq)]
pub enum Signature {
    /// An Ed25519 signature: its 64 bytes.
    Ed25519(Vec<u8>),
}

/// The value of a [`Signature`].
pub enum SignatureView {
    Ed25519(Seq<u8>),
}

impl View for Signature {
    type V = SignatureView;

    open spec fn view(&self) -> SignatureView {
        match self {
            Signature::Ed25519(b) => SignatureView::Ed25519(b@),
        }
    }
}

/// The bytes of a [`Signature`]: variant index 0, then 64 bytes.
pub open spec fn spec_signature(b: Seq<u8>) -> Option<(SignatureView, Seq<u8>)> {
    match spec_u8(b) {
        Some((tag, rest)) => if tag == 0 {
            match spec_array64(rest) {
                Some((sig, rest2)) => Some((SignatureView::Ed25519(sig), rest2)),
                None => None,
            }
        } else {
            None
        },
        None => None,
    }
}

/// Decodes a [`Signature`] at the start of `buf`, handing back the rest.
pub fn decode_signature<'a>(buf: &'a [u8]) -> (res: Result<(Signature, &'a [u8]), std::io::Error>)
    ensures
        res is Ok <==> spec_signature(buf@) is Some,
        res matches Ok((s, rest)) ==> spec_signature(buf@) == Some((s@, rest@)),
{
    let (tag, rest) = match de_u8(buf) {
        Ok(p) => p,
        Err(e) => return Err(e),
    };
    if tag != 0 {
        return Err(unexpected_variant(tag));
    }
    let (sig, rest) = match de_array64(rest) {
        Ok(p) => p,
        Err(e) => return Err(e),
    };
    Ok((Signature::Ed25519(sig), rest))
}

/// The ledger's internal accounts. The wire form is the variant index.
#[derive(Debug, Clone, Copy, PartialEq, Eq, Structural)]
pub enum InternalAddress {
    /// Proof-of-stake system.
    PoS,
    /// Proof-of-stake slash pool.
    PosSlashPool,
    /// Protocol parameters.
    Parameters,
    /// Inter-blockchain communication.
    Ibc,
    /// The Ethereum bridge.
    EthBridge,
}

/// The internal address with the given variant index, if there is one.
pub open spec fn internal_address_of(index: u8) -> Option<InternalAddress> {
    if index == 0 {
        Some(InternalAddress::PoS)
    } else if index == 1 {
        Some(InternalAddress::PosSlashPool)
    } else if index == 2 {
        Some(InternalAddress::Parameters)
    } else if index == 3 {
        Some(InternalAddress::Ibc)
    } else if index == 4 {
        Some(InternalAddress::EthBridge)
    } else {
        None
    }
}

/// An account address.
///
/// The wire form is a variant index byte and then: for an established
/// address, its hash as a string; for an implicit address, the index 0 of
/// its only kind (an Ed25519 public-key hash) and the hash as a string; for
/// an internal address, the internal address's variant index.
#[derive(Debug, Clone, PartialEq, Eq)]
pub enum Address {
    /// An established account, by its hash.
    Established(String),
    /// An implicit account, by the hash of its Ed25519 public key.
    Implicit(String),
    /// An internal account.
    Internal(InternalAddress),
}

/// The value of an [`Address`].
pub enum AddressView {
    Established(Seq<char>),
    Implicit(Seq<char>),
    Internal(InternalAddress),
}

impl View for Address {
    type V = AddressView;

    open spec fn view(&self) -> AddressView {
        match self {
            Address::Established(h) => AddressView::Established(h@),
            Address::Implicit(h) => AddressView::Implicit(h@),
            Address::Internal(i) => AddressView::Internal(*i),
        }
    }
}

/// The bytes of an [`Address`].
pub open spec fn spec_address(b: Seq<u8>) -> Option<(AddressView, Seq<u8>)> {
    match spec_u8(b) {
        Some((tag, rest)) => if tag == 0 {
            match spec_string(rest) {
                Some((h, rest2)) => Some((AddressView::Established(h), rest2)),
                None => None,
            }
        } else if tag == 1 {
            match spec_u8(rest) {
                Some((kind, rest2)) => if kind == 0 {
                    match spec_string(rest2) {
                        Some((h, rest3)) => Some((AddressView::Implicit(h), rest3)),
                        None => None,
                    }
                } else {
                    None
                },
                None => None,
            }
        } else if tag == 2 {
            match spec_u8(rest) {
                Some((index, rest2)) => match internal_address_of(index) {
                    Some(i) => Some((AddressView::Internal(i), rest2)),
                    None => None,
                },
                None => None,
            }
        } else {
            None
        },
        None => None,
    }
}

/// Decodes an [`Address`] at the start of `buf`, handing back the rest.
pub fn decode_address<'a>(buf: &'a [u8]) -> (res: Result<(Address, &'a [u8]), std::io::Error>)
    ensures
        res is Ok <==> spec_address(buf@) is Some,
        res matches Ok((a, rest)) ==> spec_address(buf@) == Some((a@, rest@)),
{
    let (tag, rest) = match de_u8(buf) {
        Ok(p) => p,
        Err(e) => return Err(e),
    };
    if tag == 0 {
        let (h, rest) = match de_string(rest) {
            Ok(p) => p,
            Err(e) => return Err(e),
        };
        Ok((Address::Established(h), rest))
    } else if tag == 1 {
        let (kind, rest) = match de_u8(rest) {
            Ok(p) => p,
            Err(e) => return Err(e),
        };
        if kind != 0 {
            return Err(unexpected_variant(kind));
        }
        let (h, rest) = match de_string(rest) {
            Ok(p) => p,
            Err(e) => return Err(e),
        };
        Ok((Address::Implicit(h), rest))
    } else if tag == 2 {
        let (index, rest) = match de_u8(rest) {
            Ok(p) => p,
            Err(e) => return Err(e),
        };
        let internal = if index == 0 {
            InternalAddress::PoS
        } else if index == 1 {
            InternalAddress::PosSlashPool
        } else if index == 2 {
            InternalAddress::Parameters
        } else if index == 3 {
            InternalAddress::Ibc
        } else if index == 4 {
            InternalAddress::EthBridge
        } else {
            return Err(unexpected_variant(index));
        };
        Ok((Address::Internal(internal), rest))
    } else {
        Err(unexpected_variant(tag))
    }
}

/// The view of an optional address.
pub open spec fn opt_address_view(a: Option<Address>) -> Option<AddressView> {
    match a {
        Some(x) => Some(x@),
        None => None,
    }
}

/// The bytes of an `Option<Address>`: flag 0, or flag 1 and an address.
pub open spec fn spec_opt_address(b: Seq<u8>) -> Option<(Option<AddressView>, Seq<u8>)> {
    match spec_u8(b) {
        Some((flag, rest)) => if flag == 0 {
            Some((None, rest))
        } else if flag == 1 {
            match spec_address(rest) {
                Some((a, rest2)) => Some((Some(a), rest2)),
                None => None,
            }
        } else {
            None
        },
        None => None,
    }
}

/// Decodes an `Option<Address>` at the start of `buf`, handing back the rest.
pub fn decode_opt_address<'a>(buf: &'a [u8]) -> (res: Result<(Option<Address>, &'a [u8]), std::io::Error>)
    ensures
        res is Ok <==> spec_opt_address(buf@) is Some,
        res matches Ok((a, rest)) ==> spec_opt_address(buf@) == Some((opt_address_view(a), rest@)),
{
    let (present, rest) = match de_option_flag(buf) {
        Ok(p) => p,
        Err(e) => return Err(e),
    };
    if !present {
        Ok((None, rest))
    } else {
        let (a, rest) = match decode_address(rest) {
            Ok(p) => p,
            Err(e) => return Err(e),
        };
        Ok((Some(a), rest))
    }
}

/// A token amount, in micro units. The wire form is a little-endian `u64`.
#[derive(Debug, Clone, Copy, PartialEq, Eq, Structural)]
pub struct Amount {
    pub micro: u64,
}


/// The encoding of a signature: its variant index, then its bytes.
pub open spec fn enc_signature(sig: SignatureView) -> Seq<u8> {
    match sig {
        SignatureView::Ed25519(b) => seq![0u8] + b,
    }
}

/// A signature value that has an encoding: an Ed25519 signature of 64 bytes.
pub open spec fn encodable_signature(sig: SignatureView) -> bool {
    match sig {
        SignatureView::Ed25519(b) => b.len() == 64,
    }
}

/// Decoding gives back every signature that was encoded, and leaves the
/// bytes after it.
pub proof fn lemma_signature_round_trip(sig: SignatureView, r: Seq<u8>)
    requires
        encodable_signature(sig),
    ensures
        spec_signature(enc_signature(sig) + r) == Some((sig, r)),
{
    match sig {
        SignatureView::Ed25519(b) => {
            assert(enc_signature(sig) + r =~= seq![0u8] + (b + r));
            lemma_u8_round_trip(0, b + r);
            lemma_array64_round_trip(b, r);
        },
    }
}

/// The variant index of an internal address.
pub open spec fn internal_address_index(i: InternalAddress) -> u8 {
    match i {
        InternalAddress::PoS => 0,
        InternalAddress::PosSlashPool => 1,
        InternalAddress::Parameters => 2,
        InternalAddress::Ibc => 3,
        InternalAddress::EthBridge => 4,
    }
}

/// The encoding of an address.
pub open spec fn enc_address(a: AddressView) -> Seq<u8> {
    match a {
        AddressView::Established(h) => seq![0u8] + enc_string(h),
        AddressView::Implicit(h) => seq![1u8, 0u8] + enc_string(h),
        AddressView::Internal(i) => seq![2u8, internal_address_index(i)],
    }
}

/// An address that has an encoding: its hash, if any, fits a string field.
pub open spec fn encodable_address(a: AddressView) -> bool {
    match a {
        AddressView::Established(h) => encodable_string(h),
        AddressView::Implicit(h) => encodable_string(h),
        AddressView::Internal(_) => true,
    }
}

/// Decoding gives back every address that was encoded, of whatever kind,
/// and leaves the bytes after it.
pub proof fn lemma_address_round_trip(a: AddressView, r: Seq<u8>)
    requires
        encodable_address(a),
    ensures
        spec_address(enc_address(a) + r) == Some((a, r)),
{
    match a {
        AddressView::Established(h) => {
            assert(enc_address(a) + r =~= seq![0u8] + (enc_string(h) + r));
            lemma_u8_round_trip(0, enc_string(h) + r);
            lemma_string_round_trip(h, r);
        },
        AddressView::Implicit(h) => {
            assert(enc_address(a) + r =~= seq![1u8] + (seq![0u8] + (enc_string(h) + r)));
            lemma_u8_round_trip(1, seq![0u8] + (enc_string(h) + r));
            lemma_u8_round_trip(0, enc_string(h) + r);
            lemma_string_round_trip(h, r);
        },
        AddressView::Internal(i) => {
            let x = internal_address_index(i);
            assert(enc_address(a) + r =~= seq![2u8] + (seq![x] + r));
            lemma_u8_round_trip(2, seq![x] + r);
            lemma_u8_round_trip(x, r);
        },
    }
}

/// The encoding of an optional address.
pub open spec fn enc_opt_address(a: Option<AddressView>) -> Seq<u8> {
    match a {
        None => seq![0u8],
        Some(x) => seq![1u8] + enc_address(x),
    }
}

/// Decoding gives back every optional address that was encoded: present
/// exactly when it was, with the address of whatever kind.
pub proof fn lemma_opt_address_round_trip(a: Option<AddressView>, r: Seq<u8>)
    requires
        a matches Some(x) ==> encodable_address(x),
    ensures
        spec_opt_address(enc_opt_address(a) + r) == Some((a, r)),
{
    match a {
        None => {
            lemma_u8_round_trip(0, r);
        },
        Some(x) => {
            assert(enc_opt_address(a) + r =~= seq![1u8] + (enc_address(x) + r));
            lemma_u8_round_trip(1, enc_address(x) + r);
            lemma_address_round_trip(x, r);
        },
    }
}
} // verus!
