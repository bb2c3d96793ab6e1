use vstd::prelude::*;

verus! {

/// Process-wide configuration the registry consumes but does not own: the
/// port to serve on, the admin login and password the credential digests are
/// derived from, and the probing period in seconds. Reading it from the
/// environment happens outside the verified library.
pub struct Config {
    pub port: u16,
    pub login: String,
    pub password: String,
    pub healthcheck_interval: u64,
}

} // verus!
