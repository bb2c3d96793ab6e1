use vstd::prelude::*;

verus! {

/// What the outside hash call returns for a given string: the digest is a
/// function of the characters alone.
pub uninterp spec fn hash_of(s: Seq<char>) -> u64;

/// Relies on std's `DefaultHasher`: hashers created by `DefaultHasher::new`
/// are documented to be the same as one another, so feeding a string to a
/// fresh one yields a digest that depends on the characters alone.
#[verifier::external_body]
pub(crate) fn hash64(s: &str) -> (r: u64)
    ensures
        r == hash_of(s@),
{
    let mut hasher = std::collections::hash_map::DefaultHasher::new();
    std::hash::Hash::hash(s, &mut hasher);
    std::hash::Hasher::finish(&hasher)
}

/// The fixed admin credential digests, derived once at process start.
pub struct AdminCredentials {
    pub login_hash: u64,
    pub password_hash: u64,
}

impl AdminCredentials {
    /// Derive the fixed digests from the configured login and password.
    pub fn from_plain(login: &str, password: &str) -> (r: AdminCredentials)
        ensures
            r.login_hash == hash_of(login@),
            r.password_hash == hash_of(password@),
    {
        AdminCredentials { login_hash: hash64(login), password_hash: hash64(password) }
    }
}

/// The supplied login and password digest to the stored admin digests.
pub open spec fn admin_matches(creds: AdminCredentials, login: Seq<char>, password: Seq<char>) -> bool {
    hash_of(login) == creds.login_hash && hash_of(password) == creds.password_hash
}

/// Compare supplied credentials against the fixed admin digests.
pub fn check_credentials(creds: &AdminCredentials, login: &str, password: &str) -> (r: bool)
    ensures
        r == admin_matches(*creds, login@, password@),
{
    hash64(login) == creds.login_hash && hash64(password) == creds.password_hash
}

} // verus!
