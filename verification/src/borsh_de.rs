//! Borsh decoding of the primitive fields that the ledger's payloads are
//! made of. Each decoder calls the `borsh` crate on a byte slice and hands
//! back the value and the bytes that follow it; the spec functions here say
//! which bytes each field takes and what value they stand for.
use vstd::prelude::*;
use vstd::utf8::{
    decode_utf8, encode_utf8, encode_utf8_decode_utf8, encode_utf8_valid_utf8, valid_utf8,
};

verus! {

/// `std::io::Error`, the error type of every Borsh decoder; carried through,
/// never inspected.
#[verifier::external_type_specification]
#[verifier::external_body]
pub struct ExIoError(std::io::Error);

/// The little-endian number that the first four bytes of `b` encode.
pub open spec fn le_u32(b: Seq<u8>) -> int {
    b[0] + b[1] * 0x100 + b[2] * 0x1_0000 + b[3] * 0x100_0000
}

/// The little-endian number that the first eight bytes of `b` encode.
pub open spec fn le_u64(b: Seq<u8>) -> int {
    le_u32(b) + le_u32(b.skip(4)) * 0x1_0000_0000
}

/// A `u8` field: one byte.
pub open spec fn spec_u8(b: Seq<u8>) -> Option<(u8, Seq<u8>)> {
    if b.len() >= 1 {
        Some((b[0], b.skip(1)))
    } else {
        None
    }
}

/// A `u64` field: eight bytes, little-endian.
pub open spec fn spec_u64(b: Seq<u8>) -> Option<(u64, Seq<u8>)> {
    if b.len() >= 8 {
        Some((le_u64(b) as u64, b.skip(8)))
    } else {
        None
    }
}

/// A byte-vector field: a little-endian `u32` length, then that many bytes.
pub open spec fn spec_byte_vec(b: Seq<u8>) -> Option<(Seq<u8>, Seq<u8>)> {
    if b.len() >= 4 && 4 + le_u32(b) <= b.len() {
        Some((b.subrange(4, 4 + le_u32(b)), b.skip(4 + le_u32(b))))
    } else {
        None
    }
}

/// A string field: a byte vector that holds valid UTF-8; the value is the
/// text that those bytes encode.
pub open spec fn spec_string(b: Seq<u8>) -> Option<(Seq<char>, Seq<u8>)> {
    match spec_byte_vec(b) {
        Some((s, rest)) => if valid_utf8(s) {
            Some((decode_utf8(s), rest))
        } else {
            None
        },
        None => None,
    }
}

/// A 64-byte array field: exactly 64 bytes, with no length before them.
pub open spec fn spec_array64(b: Seq<u8>) -> Option<(Seq<u8>, Seq<u8>)> {
    if b.len() >= 64 {
        Some((b.take(64), b.skip(64)))
    } else {
        None
    }
}

/// An optional byte-vector field: a flag byte 0 (absent) or 1 (present, then
/// the byte vector); any other flag is refused.
pub open spec fn spec_opt_byte_vec(b: Seq<u8>) -> Option<(Option<Seq<u8>>, Seq<u8>)> {
    match spec_u8(b) {
        Some((flag, rest)) => if flag == 0 {
            Some((None, rest))
        } else if flag == 1 {
            match spec_byte_vec(rest) {
                Some((v, rest2)) => Some((Some(v), rest2)),
                None => None,
            }
        } else {
            None
        },
        None => None,
    }
}

/// Decodes a `u8` with `borsh::BorshDeserialize::deserialize`: the claim is
/// that it takes the first byte and fails only on an empty input.
/// Which `std::io::Error` it fails with is not stated.
#[verifier::external_body]
pub(crate) fn de_u8<'a>(buf: &'a [u8]) -> (res: Result<(u8, &'a [u8]), std::io::Error>)
    ensures
        res is Ok <==> spec_u8(buf@) is Some,
        res matches Ok((v, rest)) ==> spec_u8(buf@) == Some((v, rest@)),
{
    let mut b = buf;
    let v = <u8 as borsh::BorshDeserialize>::deserialize(&mut b)?;
    Ok((v, b))
}

/// Decodes a `u64` with `borsh::BorshDeserialize::deserialize`: the claim is
/// that it reads eight little-endian bytes and fails only on fewer bytes.
/// Which `std::io::Error` it fails with is not stated.
#[verifier::external_body]
pub(crate) fn de_u64<'a>(buf: &'a [u8]) -> (res: Result<(u64, &'a [u8]), std::io::Error>)
    ensures
        res is Ok <==> spec_u64(buf@) is Some,
        res matches Ok((v, rest)) ==> spec_u64(buf@) == Some((v, rest@)),
{
    let mut b = buf;
    let v = <u64 as borsh::BorshDeserialize>::deserialize(&mut b)?;
    Ok((v, b))
}

/// Decodes a `Vec<u8>` with `borsh::BorshDeserialize::deserialize`: the
/// claim is that it reads a little-endian `u32` length and that many bytes,
/// and fails only when the input is shorter than that. Which
/// `std::io::Error` it fails with is not stated.
#[verifier::external_body]
pub(crate) fn de_byte_vec<'a>(buf: &'a [u8]) -> (res: Result<(Vec<u8>, &'a [u8]), std::io::Error>)
    ensures
        res is Ok <==> spec_byte_vec(buf@) is Some,
        res matches Ok((v, rest)) ==> spec_byte_vec(buf@) == Some((v@, rest@)),
{
    let mut b = buf;
    let v = <Vec<u8> as borsh::BorshDeserialize>::deserialize(&mut b)?;
    Ok((v, b))
}

/// Decodes a `String` with `borsh::BorshDeserialize::deserialize`: the claim
/// is that it reads a byte vector and succeeds exactly when those bytes are
/// valid UTF-8 (it calls `String::from_utf8`), giving the text they encode.
/// Which `std::io::Error` it fails with is not stated.
#[verifier::external_body]
pub(crate) fn de_string<'a>(buf: &'a [u8]) -> (res: Result<(String, &'a [u8]), std::io::Error>)
    ensures
        res is Ok <==> spec_string(buf@) is Some,
        res matches Ok((v, rest)) ==> spec_string(buf@) == Some((v@, rest@)),
{
    let mut b = buf;
    let v = <String as borsh::BorshDeserialize>::deserialize(&mut b)?;
    Ok((v, b))
}

/// Decodes a `[u8; 64]` with `borsh::BorshDeserialize::deserialize` and
/// turns the array into a vector: the claim is that it takes the first 64
/// bytes and fails only on fewer bytes. Which `std::io::Error` it fails
/// with is not stated.
#[verifier::external_body]
pub(crate) fn de_array64<'a>(buf: &'a [u8]) -> (res: Result<(Vec<u8>, &'a [u8]), std::io::Error>)
    ensures
        res is Ok <==> spec_array64(buf@) is Some,
        res matches Ok((v, rest)) ==> spec_array64(buf@) == Some((v@, rest@)),
{
    let mut b = buf;
    let v = <[u8; 64] as borsh::BorshDeserialize>::deserialize(&mut b)?;
    Ok((v.to_vec(), b))
}

/// Decodes an `Option<Vec<u8>>` with `borsh::BorshDeserialize::deserialize`:
/// the claim is that it reads a flag byte, 0 for `None` and 1 for `Some`
/// followed by a byte vector, and refuses every other flag. Which
/// `std::io::Error` it fails with is not stated.
#[verifier::external_body]
pub(crate) fn de_opt_byte_vec<'a>(buf: &'a [u8]) -> (res: Result<(Option<Vec<u8>>, &'a [u8]), std::io::Error>)
    ensures
        res is Ok <==> spec_opt_byte_vec(buf@) is Some,
        res matches Ok((v, rest)) ==> spec_opt_byte_vec(buf@) == Some((opt_bytes_view(v), rest@)),
{
    let mut b = buf;
    let v = <Option<Vec<u8>> as borsh::BorshDeserialize>::deserialize(&mut b)?;
    Ok((v, b))
}

/// Decodes a `()` from a whole slice with `borsh::BorshDeserialize::try_from_slice`:
/// the claim is that it succeeds exactly on the empty slice. Which
/// `std::io::Error` it fails with is not stated.
#[verifier::external_body]
pub(crate) fn de_unit_from_slice(buf: &[u8]) -> (res: Result<(), std::io::Error>)
    ensures
        res is Ok <==> buf@.len() == 0,
{
    <() as borsh::BorshDeserialize>::try_from_slice(buf)
}

/// An option flag: one byte, 0 (absent) or 1 (present); any other byte
/// is refused. The value tells whether the option is present.
pub open spec fn spec_option_flag(b: Seq<u8>) -> Option<(bool, Seq<u8>)> {
    if b.len() >= 1 && b[0] <= 1 {
        Some((b[0] == 1, b.skip(1)))
    } else {
        None
    }
}

/// Decodes the flag of an option with `borsh::BorshDeserialize::deserialize`
/// for `Option<()>`, whose payload takes no bytes, and tells whether the
/// option is present: the claim is that it reads one flag byte, 0 or 1, and
/// refuses every other byte and the empty input. Which `std::io::Error` it
/// fails with is not stated.
#[verifier::external_body]
pub(crate) fn de_option_flag<'a>(buf: &'a [u8]) -> (res: Result<(bool, &'a [u8]), std::io::Error>)
    ensures
        res is Ok <==> spec_option_flag(buf@) is Some,
        res matches Ok((present, rest)) ==> spec_option_flag(buf@) == Some((present, rest@)),
{
    let mut b = buf;
    let v = <Option<()> as borsh::BorshDeserialize>::deserialize(&mut b)?;
    Ok((v.is_some(), b))
}

/// Makes, with `std::io::Error::new`, the error by which a Borsh-derived
/// enum decoder refuses a variant index that names no variant; nothing is
/// claimed of it.
#[verifier::external_body]
pub(crate) fn unexpected_variant(index: u8) -> std::io::Error {
    std::io::Error::new(
        std::io::ErrorKind::InvalidInput,
        format!("Unexpected variant index: {:?}", index),
    )
}

/// The view of an optional byte vector.
pub open spec fn opt_bytes_view(v: Option<Vec<u8>>) -> Option<Seq<u8>> {
    match v {
        Some(b) => Some(b@),
        None => None,
    }
}


/// The four little-endian bytes of a number below 2^32.
pub open spec fn enc_u32(n: nat) -> Seq<u8> {
    seq![
        (n % 0x100) as u8,
        ((n / 0x100) % 0x100) as u8,
        ((n / 0x1_0000) % 0x100) as u8,
        ((n / 0x100_0000) % 0x100) as u8,
    ]
}

/// The eight little-endian bytes of a `u64`.
pub open spec fn enc_u64(n: u64) -> Seq<u8> {
    enc_u32((n as nat) % 0x1_0000_0000) + enc_u32((n as nat) / 0x1_0000_0000)
}

/// The encoding of a byte vector: its length as a little-endian `u32`, then
/// its bytes.
pub open spec fn enc_byte_vec(d: Seq<u8>) -> Seq<u8> {
    enc_u32(d.len()) + d
}

/// The encoding of a string: the byte vector of its UTF-8 bytes.
pub open spec fn enc_string(t: Seq<char>) -> Seq<u8> {
    enc_byte_vec(encode_utf8(t))
}

/// The encoding of an optional byte vector.
pub open spec fn enc_opt_byte_vec(d: Option<Seq<u8>>) -> Seq<u8> {
    match d {
        None => seq![0u8],
        Some(v) => seq![1u8] + enc_byte_vec(v),
    }
}

/// A string whose UTF-8 bytes fit a byte vector's length field.
pub open spec fn encodable_string(t: Seq<char>) -> bool {
    encode_utf8(t).len() < 0x1_0000_0000
}

/// Reading back the four bytes of a number below 2^32 gives the number.
pub proof fn lemma_le_u32_enc(n: nat)
    requires
        n < 0x1_0000_0000,
    ensures
        le_u32(enc_u32(n)) == n,
        enc_u32(n).len() == 4,
{
    let b = enc_u32(n);
    assert(b[0] == n % 0x100);
    assert(b[1] == (n / 0x100) % 0x100);
    assert(b[2] == (n / 0x1_0000) % 0x100);
    assert(b[3] == (n / 0x100_0000) % 0x100);
    assert(n == n % 0x100 + ((n / 0x100) % 0x100) * 0x100 + ((n / 0x1_0000) % 0x100) * 0x1_0000 + ((
    n / 0x100_0000) % 0x100) * 0x100_0000) by (nonlinear_arith)
        requires
            n < 0x1_0000_0000,
    ;
}

/// A byte followed by more bytes decodes as that byte.
pub proof fn lemma_u8_round_trip(b: u8, r: Seq<u8>)
    ensures
        spec_u8(seq![b] + r) == Some((b, r)),
{
    assert((seq![b] + r).skip(1) =~= r);
}

/// A `u64`'s encoding followed by more bytes decodes as that `u64`.
pub proof fn lemma_u64_round_trip(n: u64, r: Seq<u8>)
    ensures
        spec_u64(enc_u64(n) + r) == Some((n, r)),
{
    let lo = (n as nat) % 0x1_0000_0000;
    let hi = (n as nat) / 0x1_0000_0000;
    lemma_le_u32_enc(lo);
    lemma_le_u32_enc(hi);
    let b = enc_u64(n) + r;
    assert(b.len() >= 8);
    assert(b.take(4) =~= enc_u32(lo));
    assert(b.skip(4).take(4) =~= enc_u32(hi));
    assert(le_u32(b) == le_u32(enc_u32(lo)));
    assert(le_u32(b.skip(4)) == le_u32(enc_u32(hi)));
    assert(lo + hi * 0x1_0000_0000 == n) by (nonlinear_arith)
        requires
            lo == (n as nat) % 0x1_0000_0000,
            hi == (n as nat) / 0x1_0000_0000,
    ;
    assert(b.skip(8) =~= r);
}

/// A byte vector's encoding followed by more bytes decodes as that vector.
pub proof fn lemma_byte_vec_round_trip(d: Seq<u8>, r: Seq<u8>)
    requires
        d.len() < 0x1_0000_0000,
    ensures
        spec_byte_vec(enc_byte_vec(d) + r) == Some((d, r)),
{
    lemma_le_u32_enc(d.len());
    let b = enc_byte_vec(d) + r;
    assert(le_u32(b) == le_u32(enc_u32(d.len())));
    assert(b.subrange(4, 4 + d.len() as int) =~= d);
    assert(b.skip(4 + d.len() as int) =~= r);
}

/// A string's encoding followed by more bytes decodes as that string.
pub proof fn lemma_string_round_trip(t: Seq<char>, r: Seq<u8>)
    requires
        encodable_string(t),
    ensures
        spec_string(enc_string(t) + r) == Some((t, r)),
{
    lemma_byte_vec_round_trip(encode_utf8(t), r);
    encode_utf8_valid_utf8(t);
    encode_utf8_decode_utf8(t);
}

/// 64 bytes followed by more bytes decode as the 64-byte array.
pub proof fn lemma_array64_round_trip(a: Seq<u8>, r: Seq<u8>)
    requires
        a.len() == 64,
    ensures
        spec_array64(a + r) == Some((a, r)),
{
    assert((a + r).take(64) =~= a);
    assert((a + r).skip(64) =~= r);
}

/// An optional byte vector's encoding followed by more bytes decodes as it.
pub proof fn lemma_opt_byte_vec_round_trip(d: Option<Seq<u8>>, r: Seq<u8>)
    requires
        d matches Some(v) ==> v.len() < 0x1_0000_0000,
    ensures
        spec_opt_byte_vec(enc_opt_byte_vec(d) + r) == Some((d, r)),
{
    match d {
        None => {
            lemma_u8_round_trip(0, r);
        },
        Some(v) => {
            assert(enc_opt_byte_vec(d) + r =~= seq![1u8] + (enc_byte_vec(v) + r));
            lemma_u8_round_trip(1, enc_byte_vec(v) + r);
            lemma_byte_vec_round_trip(v, r);
        },
    }
}
} // verus!
