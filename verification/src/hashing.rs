use vstd::prelude::*;

verus! {

/// The lowercase hex encoding of the SHA-256 digest of the UTF-8 bytes of
/// `s`. The digest is a fixed function of the input characters alone, so the
/// encoding can be named without being written out.
pub uninterp spec fn sha256_hex_of(s: Seq<char>) -> Seq<char>;

/// Relies on `sha2::Sha256` (`Digest::new`, `update`, `finalize`): the digest
/// is 32 bytes and depends on the input bytes alone, and `generic_array`'s
/// `LowerHex` formats each byte as exactly two lowercase hex digits.
#[verifier::external_body]
pub(crate) fn sha256_hex(s: &str) -> (r: String)
    ensures
        r@ == sha256_hex_of(s@),
        r@.len() == 64,
{
    let mut hasher = <sha2::Sha256 as sha2::Digest>::new();
    sha2::Digest::update(&mut hasher, s.as_bytes());
    format!("{:x}", sha2::Digest::finalize(hasher))
}

} // verus!
