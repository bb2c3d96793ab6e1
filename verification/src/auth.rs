use vstd::prelude::*;

use crate::credentials::{admin_matches, hash_of};
use crate::service::{AcceptForm, NewTokenForm, Service, ServiceForm, SubscribeForm, Token};
use crate::store::{
    contains_id, lemma_remove_first_absent, remove_first, RegistryStore, Subscriber,
};
use crate::urls::{build_registration_url, registration_url};

verus! {

/// What a registration attempt came to: the fresh identifier, a rejected or
/// already-spent token, or a connection address no base URL could be made of.
pub enum RegisterOutcome {
    Registered(String),
    Unauthorized,
    InvalidAddress,
}

/// What an admin-gated operation came to.
pub enum AdminOutcome {
    Done,
    Unauthorized,
    NotFound,
}

/// Exchange admin credentials for a fresh one-time registration token: the
/// token exactly when the digests match, in which case its digest is now
/// outstanding; nothing else changes either way.
pub fn new_token(store: &mut RegistryStore, form: &NewTokenForm) -> (r: Option<Token>)
    requires
        old(store).wf(),
    ensures
        final(store).wf(),
        r is Some <==> admin_matches(old(store).admin(), form.login@, form.password@),
        r matches Some(t) ==> final(store).token_hashes() == old(store).token_hashes().push(
            hash_of(t.token@),
        ),
        r is None ==> final(store).token_hashes() == old(store).token_hashes(),
        final(store).services() == old(store).services(),
        final(store).subscribers() == old(store).subscribers(),
        final(store).admin() == old(store).admin(),
{
    if !store.check_admin(&form.login, &form.password) {
        return None;
    }
    let token = store.issue_token();
    Some(Token { token })
}

/// Register a service: spend the one-time token and record a new entry whose
/// address is derived from the registering connection, never from the
/// payload. The token is consumed exactly when its digest was outstanding; a
/// failed attempt spends nothing and records nothing.
pub fn register_service(store: &mut RegistryStore, form: &ServiceForm, source_addr: &String) -> (r:
    RegisterOutcome)
    requires
        old(store).wf(),
    ensures
        final(store).wf(),
        r is InvalidAddress <==> registration_url(source_addr@, form.port) is None,
        !(r is InvalidAddress) ==> (r is Unauthorized <==> !old(store).token_hashes().contains(
            hash_of(form.access_token@),
        )),
        r is Registered <==> registration_url(source_addr@, form.port) is Some
            && old(store).token_hashes().contains(hash_of(form.access_token@)),
        !(r is Registered) ==> final(store).services() == old(store).services()
            && final(store).token_hashes() == old(store).token_hashes(),
        r matches RegisterOutcome::Registered(identifier) ==> ({
            let svc = final(store).services().last();
            &&& !contains_id(old(store).services(), identifier@)
            &&& final(store).services().len() == old(store).services().len() + 1
            &&& final(store).services().drop_last() == old(store).services()
            &&& svc.identifier == identifier
            &&& svc.service_type == form.service_type
            &&& svc.healthcheck_endpoint == form.healthcheck_endpoint
            &&& !svc.available
            &&& !svc.is_accepted
            &&& Some(svc.address@) == registration_url(source_addr@, form.port)
            &&& final(store).token_hashes() == remove_first(
                old(store).token_hashes(),
                hash_of(form.access_token@),
            )
        }),
        final(store).subscribers() == old(store).subscribers(),
        final(store).admin() == old(store).admin(),
{
    let address = match build_registration_url(source_addr.as_str(), form.port) {
        Some(a) => a,
        None => {
            return RegisterOutcome::InvalidAddress;
        },
    };
    if !store.consume_token(&form.access_token) {
        proof {
            lemma_remove_first_absent(old(store).token_hashes(), hash_of(form.access_token@));
        }
        return RegisterOutcome::Unauthorized;
    }
    let identifier = store.insert_service(
        form.service_type.clone(),
        form.healthcheck_endpoint.clone(),
        address,
    );
    proof {
        assert(final(store).services().drop_last() =~= old(store).services());
    }
    RegisterOutcome::Registered(identifier)
}

/// Approve the named service: gated by the admin digests, then exactly that
/// entry's `is_accepted` becomes true.
pub fn accept_service(store: &mut RegistryStore, form: &AcceptForm) -> (r: AdminOutcome)
    requires
        old(store).wf(),
    ensures
        final(store).wf(),
        r is Unauthorized <==> !admin_matches(old(store).admin(), form.login@, form.password@),
        r is NotFound <==> admin_matches(old(store).admin(), form.login@, form.password@)
            && !contains_id(old(store).services(), form.identifier@),
        r is Done <==> admin_matches(old(store).admin(), form.login@, form.password@)
            && contains_id(old(store).services(), form.identifier@),
        r is Done ==> exists|i: int|
            0 <= i < old(store).services().len() && (#[trigger] old(store).services()[i]).identifier@
                == form.identifier@ && final(store).services() == old(store).services().update(
                i,
                (Service { is_accepted: true, ..old(store).services()[i] }),
            ),
        !(r is Done) ==> final(store).services() == old(store).services(),
        final(store).token_hashes() == old(store).token_hashes(),
        final(store).subscribers() == old(store).subscribers(),
        final(store).admin() == old(store).admin(),
{
    if !store.check_admin(&form.login, &form.password) {
        return AdminOutcome::Unauthorized;
    }
    if store.set_accepted(&form.identifier, true) {
        AdminOutcome::Done
    } else {
        AdminOutcome::NotFound
    }
}

/// Withdraw approval of the named service: gated by the admin digests, then
/// exactly that entry's `is_accepted` becomes false. No event follows; only
/// transitions to accepted are eventful.
pub fn disable_service(store: &mut RegistryStore, form: &AcceptForm) -> (r: AdminOutcome)
    requires
        old(store).wf(),
    ensures
        final(store).wf(),
        r is Unauthorized <==> !admin_matches(old(store).admin(), form.login@, form.password@),
        r is NotFound <==> admin_matches(old(store).admin(), form.login@, form.password@)
            && !contains_id(old(store).services(), form.identifier@),
        r is Done <==> admin_matches(old(store).admin(), form.login@, form.password@)
            && contains_id(old(store).services(), form.identifier@),
        r is Done ==> exists|i: int|
            0 <= i < old(store).services().len() && (#[trigger] old(store).services()[i]).identifier@
                == form.identifier@ && final(store).services() == old(store).services().update(
                i,
                (Service { is_accepted: false, ..old(store).services()[i] }),
            ),
        !(r is Done) ==> final(store).services() == old(store).services(),
        final(store).token_hashes() == old(store).token_hashes(),
        final(store).subscribers() == old(store).subscribers(),
        final(store).admin() == old(store).admin(),
{
    if !store.check_admin(&form.login, &form.password) {
        return AdminOutcome::Unauthorized;
    }
    if store.set_accepted(&form.identifier, false) {
        AdminOutcome::Done
    } else {
        AdminOutcome::NotFound
    }
}

/// Remember a subscription: gated by the admin digests, then recorded exactly
/// when the watched identifier exists, with the endpoint captured now.
pub fn subscribe(store: &mut RegistryStore, form: &SubscribeForm) -> (r: AdminOutcome)
    requires
        old(store).wf(),
    ensures
        final(store).wf(),
        r is Unauthorized <==> !admin_matches(old(store).admin(), form.login@, form.password@),
        r is NotFound <==> admin_matches(old(store).admin(), form.login@, form.password@)
            && !contains_id(old(store).services(), form.identifier@),
        r is Done <==> admin_matches(old(store).admin(), form.login@, form.password@)
            && contains_id(old(store).services(), form.identifier@),
        r is Done ==> final(store).subscribers() == old(store).subscribers().push(
            (Subscriber {
                identifier: form.identifier,
                on_registration: form.on_registration,
                on_acceptance: form.on_acceptance,
                endpoint: form.endpoint,
            }),
        ),
        !(r is Done) ==> final(store).subscribers() == old(store).subscribers(),
        final(store).services() == old(store).services(),
        final(store).token_hashes() == old(store).token_hashes(),
        final(store).admin() == old(store).admin(),
{
    if !store.check_admin(&form.login, &form.password) {
        return AdminOutcome::Unauthorized;
    }
    let params = Subscriber {
        identifier: form.identifier.clone(),
        on_registration: form.on_registration,
        on_acceptance: form.on_acceptance,
        endpoint: form.endpoint.clone(),
    };
    if store.add_subscriber(params) {
        AdminOutcome::Done
    } else {
        AdminOutcome::NotFound
    }
}

} // verus!
