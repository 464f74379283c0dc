//! Digests and their textual form.

use base64::Engine;
use sha2::Digest;
use vstd::prelude::*;

verus! {

/// The SHA-256 digest of a byte string.
pub uninterp spec fn sha256(data: Seq<u8>) -> Seq<u8>;

/// The padded base64 text of a byte string in the standard alphabet.
pub uninterp spec fn base64_standard(data: Seq<u8>) -> Seq<char>;

/// Calls `sha2::Sha256::digest`. The contract only names the digest: it is
/// a function of the bytes hashed and of nothing else.
#[verifier::external_body]
pub(crate) fn sha256_digest(data: &[u8]) -> (digest: Vec<u8>)
    ensures
        digest@ == sha256(data@),
{
    sha2::Sha256::digest(data).to_vec()
}

/// Calls `encode` on `base64::engine::general_purpose::STANDARD`. The
/// contract only names the text: it is a function of the bytes encoded and
/// of nothing else.
#[verifier::external_body]
pub(crate) fn base64_encode(data: &[u8]) -> (text: String)
    ensures
        text@ == base64_standard(data@),
{
    base64::engine::general_purpose::STANDARD.encode(data)
}

/// The fingerprint of a byte string: the base64 text of its SHA-256 digest.
pub open spec fn fingerprint(data: Seq<u8>) -> Seq<char> {
    base64_standard(sha256(data))
}

/// Computes the fingerprint of `data`.
pub fn fingerprint_of(data: &[u8]) -> (text: String)
    ensures
        text@ == fingerprint(data@),
{
    let digest = sha256_digest(data);
    base64_encode(digest.as_slice())
}

/// The ASCII decimal digits of `n`, most significant first, without
/// leading zeros.
pub open spec fn decimal_digits(n: nat) -> Seq<u8>
    decreases n,
{
    if n < 10 {
        seq![(48 + n) as u8]
    } else {
        decimal_digits(n / 10).push((48 + n % 10) as u8)
    }
}

/// Appends the decimal digits of `n` to `out`.
pub fn push_decimal(n: u64, out: &mut Vec<u8>)
    ensures
        final(out)@ == old(out)@ + decimal_digits(n as nat),
    decreases n,
{
    if n >= 10 {
        push_decimal(n / 10, out);
    }
    let digit: u8 = 48u8 + (n % 10) as u8;
    out.push(digit);
    proof {
        let d = decimal_digits(n as nat);
        if n >= 10 {
            assert(final(out)@ =~= old(out)@ + decimal_digits((n / 10) as nat).push(digit));
        } else {
            assert(final(out)@ =~= old(out)@ + seq![digit]);
        }
    }
}

} // verus!
