use vstd::prelude::*;
use vstd::string::StringExecFns;

verus! {

/// What the outside URL parser returns for a given text and port: None when
/// the text is not an absolute URL, otherwise the serialization of the parsed
/// URL with its port replaced. A function of the two arguments alone.
pub uninterp spec fn parsed_url_of(s: Seq<char>, port: u16) -> Option<Seq<char>>;

/// Relies on url::Url::parse, Url::set_port and Url's Display impl: parsing
/// an absolute URL and replacing its port is deterministic in the text and
/// the port. None exactly when the text does not parse; a port that cannot
/// be set (a URL without a host) is ignored and the URL kept as parsed.
#[verifier::external_body]
pub(crate) fn parse_with_port(s: &str, port: u16) -> (r: Option<String>)
    ensures
        r is Some <==> parsed_url_of(s@, port) is Some,
        r matches Some(u) ==> Some(u@) == parsed_url_of(s@, port),
{
    match url::Url::parse(s) {
        Ok(mut u) => {
            let _ = u.set_port(Some(port));
            Some(u.to_string())
        },
        Err(_) => None,
    }
}

/// What the outside URL resolver returns: None when the base does not parse
/// as an absolute URL or the path cannot be resolved against it, otherwise
/// the serialization of the resolved URL. A function of the two texts alone.
pub uninterp spec fn joined_url_of(base: Seq<char>, path: Seq<char>) -> Option<Seq<char>>;

/// Relies on url::Url::parse, Url::join and Url's Display impl: resolving a
/// (possibly relative) path against a base URL is deterministic in the two
/// texts.
#[verifier::external_body]
pub(crate) fn join_url(base: &str, path: &str) -> (r: Option<String>)
    ensures
        r is Some <==> joined_url_of(base@, path@) is Some,
        r matches Some(u) ==> Some(u@) == joined_url_of(base@, path@),
{
    match url::Url::parse(base) {
        Ok(b) => match b.join(path) {
            Ok(j) => Some(j.to_string()),
            Err(_) => None,
        },
        Err(_) => None,
    }
}

/// The base URL a registration records: the connection's address behind an
/// "http://" scheme, with the registrant's declared port in place.
pub open spec fn registration_url(addr: Seq<char>, port: u16) -> Option<Seq<char>> {
    parsed_url_of("http://"@ + addr, port)
}

/// Build the base URL recorded for a registration from the connection's
/// address and the declared port.
pub fn build_registration_url(addr: &str, port: u16) -> (r: Option<String>)
    ensures
        r is Some <==> registration_url(addr@, port) is Some,
        r matches Some(u) ==> Some(u@) == registration_url(addr@, port),
{
    let prefixed = String::from_str("http://").concat(addr);
    parse_with_port(prefixed.as_str(), port)
}

} // verus!
