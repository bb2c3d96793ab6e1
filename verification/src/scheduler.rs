use vstd::prelude::*;

use crate::service::Service;
use crate::store::RegistryStore;
use crate::urls::{join_url, joined_url_of};

verus! {

/// The accepted entries of `s`, in order.
pub open spec fn accepted_of(s: Seq<Service>) -> Seq<Service>
    decreases s.len(),
{
    if s.len() == 0 {
        Seq::empty()
    } else if s.last().is_accepted {
        accepted_of(s.drop_last()).push(s.last())
    } else {
        accepted_of(s.drop_last())
    }
}

/// Copy the accepted services out of the store: the snapshot a probing round
/// works through after the critical section is released.
pub fn snapshot_accepted(store: &RegistryStore) -> (r: Vec<Service>)
    ensures
        r@ == accepted_of(store.services()),
{
    let mut out: Vec<Service> = Vec::new();
    let n = store.num_services();
    let mut i: usize = 0;
    while i < n
        invariant
            n == store.services().len(),
            i <= n,
            out@ == accepted_of(store.services().take(i as int)),
        decreases n - i,
    {
        let svc = store.service_at(i);
        proof {
            assert(store.services().take(i as int + 1).drop_last() =~= store.services().take(
                i as int,
            ));
            assert(store.services().take(i as int + 1).last() == store.services()[i as int]);
        }
        if svc.is_accepted {
            out.push(svc.clone());
        }
        i += 1;
    }
    proof {
        assert(store.services().take(n as int) =~= store.services());
    }
    out
}

/// The URL a probe requests: the service's health-check endpoint resolved
/// against its address; None when it does not resolve, in which case the
/// probe counts as failed and the service as unavailable.
pub fn probe_url(service: &Service) -> (r: Option<String>)
    ensures
        r is Some <==> joined_url_of(service.address@, service.healthcheck_endpoint@) is Some,
        r matches Some(u) ==> Some(u@) == joined_url_of(
            service.address@,
            service.healthcheck_endpoint@,
        ),
{
    join_url(service.address.as_str(), service.healthcheck_endpoint.as_str())
}

/// Committing one probe's failure touches exactly the probed entry: it stays
/// present with `available` false, and every other entry — in particular every
/// other entry's `available` — is exactly what it was.
pub proof fn lemma_failed_probe_is_local(s: Seq<Service>, i: int)
    requires
        0 <= i < s.len(),
    ensures
        ({
            let t = s.update(i, (Service { available: false, ..s[i] }));
            &&& t.len() == s.len()
            &&& t[i].identifier@ == s[i].identifier@
            &&& !t[i].available
            &&& forall|j: int| 0 <= j < s.len() && j != i ==> t[j] == s[j]
        }),
{
}

} // verus!
