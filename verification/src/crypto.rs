//! The hash and the signature schemes of the native verifiers, which the
//! crates `sha3`, `secp256k1` and `blst` compute.

use vstd::prelude::*;

verus! {

/// Why the bytes of a signed blob cannot be checked at all.
#[derive(Debug, Clone, Copy, PartialEq, Eq)]
pub enum SignatureFailure {
    /// The bytes are no public key of the scheme.
    InvalidPublicKey,
    /// The bytes are no signature of the scheme.
    InvalidSignature,
}

/// The SHA3-256 digest of `data`.
pub uninterp spec fn sha3_256_of(data: Seq<u8>) -> Seq<u8>;

/// What secp256k1 makes of an ECDSA signature in compact form over a 32-byte
/// digest under a public key: whether it verifies, or which of the two cannot
/// be read.
pub uninterp spec fn secp256k1_outcome(
    public_key: Seq<u8>,
    signature: Seq<u8>,
    digest: Seq<u8>,
) -> Result<bool, SignatureFailure>;

/// What BLS12-381, with public keys in G1, makes of a compressed signature
/// over a message under a compressed public key, a domain separation tag and
/// an augmentation, with or without the check that the signature and the key
/// are in their groups: whether it verifies, or which of the two cannot be read.
pub uninterp spec fn bls_outcome(
    public_key: Seq<u8>,
    signature: Seq<u8>,
    message: Seq<u8>,
    dst: Seq<u8>,
    aug: Seq<u8>,
    check_groups: bool,
) -> Result<bool, SignatureFailure>;

/// `Sha3_256::digest` of the crate `sha3`: the SHA3-256 digest of `data`.
#[verifier::external_body]
pub(crate) fn sha3_256(data: &[u8]) -> (r: Vec<u8>)
    ensures
        r@ == sha3_256_of(data@),
{
    <sha3::Sha3_256 as sha3::Digest>::digest(data).to_vec()
}

/// `Secp256k1::verify_ecdsa` of the crate `secp256k1`, on the key that
/// `PublicKey::from_slice` reads, the signature that `Signature::from_compact`
/// reads and the message that `Message::from_digest` makes of the digest. The
/// result is a function of the three byte strings alone.
#[verifier::external_body]
pub(crate) fn secp256k1_check(public_key: &[u8], signature: &[u8], digest: &[u8; 32]) -> (r: Result<
    bool,
    SignatureFailure,
>)
    ensures
        r == secp256k1_outcome(public_key@, signature@, digest@),
{
    let Ok(key) = secp256k1::PublicKey::from_slice(public_key) else {
        return Err(SignatureFailure::InvalidPublicKey);
    };
    let Ok(sig) = secp256k1::ecdsa::Signature::from_compact(signature) else {
        return Err(SignatureFailure::InvalidSignature);
    };
    let message = secp256k1::Message::from_digest(*digest);
    Ok(secp256k1::Secp256k1::new().verify_ecdsa(&message, &sig, &key).is_ok())
}

/// `Signature::verify` of `blst::min_pk`, with the checks of the signature's
/// and of the key's group as `check_groups` says, on the key that
/// `PublicKey::uncompress` reads and the signature that
/// `Signature::uncompress` reads. The result is a function of the arguments alone.
#[verifier::external_body]
pub(crate) fn bls_check(
    public_key: &[u8],
    signature: &[u8],
    message: &[u8],
    dst: &[u8],
    aug: &[u8],
    check_groups: bool,
) -> (r: Result<bool, SignatureFailure>)
    ensures
        r == bls_outcome(public_key@, signature@, message@, dst@, aug@, check_groups),
{
    let Ok(key) = blst::min_pk::PublicKey::uncompress(public_key) else {
        return Err(SignatureFailure::InvalidPublicKey);
    };
    let Ok(sig) = blst::min_pk::Signature::uncompress(signature) else {
        return Err(SignatureFailure::InvalidSignature);
    };
    let verdict = sig.verify(check_groups, message, dst, aug, &key, check_groups);
    Ok(verdict == blst::BLST_ERROR::BLST_SUCCESS)
}

} // verus!
