use vstd::prelude::*;

verus! {

/// A registered endpoint. `address` is the serialized base URL derived from
/// the registering connection (never from the payload); the health-check
/// endpoint is resolved against it for probing. `is_accepted` is toggled by
/// admin action only; `available` holds the most recent probe result and is
/// false until a probe succeeds.
pub struct Service {
    pub service_type: String,
    pub available: bool,
    pub healthcheck_endpoint: String,
    pub is_accepted: bool,
    pub identifier: String,
    pub address: String,
}

impl Clone for Service {
    fn clone(&self) -> (r: Self)
        ensures
            r == *self,
    {
        Service {
            service_type: self.service_type.clone(),
            available: self.available,
            healthcheck_endpoint: self.healthcheck_endpoint.clone(),
            is_accepted: self.is_accepted,
            identifier: self.identifier.clone(),
            address: self.address.clone(),
        }
    }
}

/// What a registrant supplies: its one-time token, a free-form type, the
/// health-check path, and the port the probe should use.
pub struct ServiceForm {
    pub service_type: String,
    pub access_token: String,
    pub healthcheck_endpoint: String,
    pub port: u16,
}

/// Admin credentials offered in exchange for a fresh registration token.
pub struct NewTokenForm {
    pub login: String,
    pub password: String,
}

/// A freshly issued one-time registration token.
pub struct Token {
    pub token: String,
}

/// An optional conjunction of query predicates: a service type to equal, an
/// availability to equal, and a cap on how many matches come back.
pub struct FindForm {
    pub service_type: Option<String>,
    pub limit: Option<usize>,
    pub available: Option<bool>,
}

/// Admin credentials plus the identifier an accept or disable acts on.
pub struct AcceptForm {
    pub login: String,
    pub password: String,
    pub identifier: String,
}

/// Admin credentials plus a subscription: the identifier watched, which
/// events to be told about, and where the callback goes.
pub struct SubscribeForm {
    pub login: String,
    pub password: String,
    pub identifier: String,
    pub on_registration: bool,
    pub on_acceptance: bool,
    pub endpoint: String,
}

} // verus!
