use vstd::prelude::*;

verus! {

/// The lowercase hexadecimal SHA-256 digest of a byte sequence, as the
/// outside hash implementation renders it.
pub uninterp spec fn sha256_hex_of(data: Seq<u8>) -> Seq<char>;

/// A lowercase hexadecimal digit.
pub open spec fn is_hex_digit(c: char) -> bool {
    ('0' <= c && c <= '9') || ('a' <= c && c <= 'f')
}

/// The shape of a rendered SHA-256 digest: 64 lowercase hexadecimal
/// characters, two per digest byte.
pub open spec fn is_sha256_hex_string(s: Seq<char>) -> bool {
    s.len() == 64 && forall|i: int| 0 <= i < s.len() ==> is_hex_digit(#[trigger] s[i])
}

/// Relies on crypto::sha2::Sha256 through crypto::digest::Digest: the digest
/// depends on the input bytes alone, and result_str renders the 32-byte
/// digest as 64 characters drawn from 0-9 and a-f.
#[verifier::external_body]
pub(crate) fn sha256_hex(data: &[u8]) -> (r: String)
    ensures
        r@ == sha256_hex_of(data@),
        is_sha256_hex_string(r@),
{
    let mut hasher = crypto::sha2::Sha256::new();
    crypto::digest::Digest::input(&mut hasher, data);
    crypto::digest::Digest::result_str(&mut hasher)
}

} // verus!
