use vstd::prelude::*;

verus! {

/// Whether bcrypt's verification accepts `password` against the hash string
/// `hashed`: the cost and salt embedded in `hashed` are used to re-derive a
/// digest from `password`, and that digest is compared in constant time
/// against the digest embedded in `hashed`. The result is a function of the
/// two arguments alone; a string that is not a well-formed bcrypt hash
/// accepts no password.
pub uninterp spec fn bcrypt_accepts(password: Seq<char>, hashed: Seq<char>) -> bool;

/// Relies on bcrypt::hash: it derives a one-way digest of `password` under a
/// freshly drawn random salt and formats cost, salt and digest into a hash
/// string that bcrypt::verify accepts together with the same password. It
/// fails only when `cost` lies outside bcrypt's accepted range or the
/// operating system yields no randomness, and it never panics.
#[verifier::external_body]
pub(crate) fn hash_secret(password: &str, cost: u32) -> (r: Option<String>)
    ensures
        r matches Some(h) ==> bcrypt_accepts(password@, h@),
{
    bcrypt::hash(password, cost).ok()
}

/// Relies on bcrypt::verify: deterministic in its two arguments, it re-derives
/// the digest of `password` under the cost and salt embedded in `hashed` and
/// compares digests in constant time. An error (a malformed hash string)
/// counts as a non-match.
#[verifier::external_body]
pub(crate) fn check_secret(password: &str, hashed: &str) -> (r: bool)
    ensures
        r == bcrypt_accepts(password@, hashed@),
{
    bcrypt::verify(password, hashed).unwrap_or(false)
}

} // verus!
