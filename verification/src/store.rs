use vstd::prelude::*;
use vstd::string::StringExecFns;

use crate::credentials::{admin_matches, check_credentials, hash64, hash_of, AdminCredentials};
use crate::service::{FindForm, Service};

verus! {

/// A subscription: the identifier watched, which events are of interest, and
/// the callback endpoint captured at subscribe time.
pub struct Subscriber {
    pub identifier: String,
    pub on_registration: bool,
    pub on_acceptance: bool,
    pub endpoint: String,
}

impl Clone for Subscriber {
    fn clone(&self) -> (r: Self)
        ensures
            r == *self,
    {
        Subscriber {
            identifier: self.identifier.clone(),
            on_registration: self.on_registration,
            on_acceptance: self.on_acceptance,
            endpoint: self.endpoint.clone(),
        }
    }
}

/// Some entry of `s` carries the identifier `id`.
pub open spec fn contains_id(s: Seq<Service>, id: Seq<char>) -> bool {
    exists|i: int| 0 <= i < s.len() && (#[trigger] s[i]).identifier@ == id
}

/// The identifiers of `s` are pairwise distinct.
pub open spec fn ids_distinct(s: Seq<Service>) -> bool {
    forall|i: int, j: int|
        0 <= i < j < s.len() ==> (#[trigger] s[i]).identifier@ != (#[trigger] s[j]).identifier@
}

/// `s` with the first occurrence of `v` removed; `s` itself when `v` is absent.
pub open spec fn remove_first(s: Seq<u64>, v: u64) -> Seq<u64>
    decreases s.len(),
{
    if s.len() == 0 {
        s
    } else if s[0] == v {
        s.drop_first()
    } else {
        seq![s[0]] + remove_first(s.drop_first(), v)
    }
}

/// How often `v` occurs in `s`.
pub open spec fn count_of(s: Seq<u64>, v: u64) -> nat
    decreases s.len(),
{
    if s.len() == 0 {
        0
    } else {
        (if s[0] == v {
            1nat
        } else {
            0nat
        }) + count_of(s.drop_first(), v)
    }
}

/// The length of the longest identifier in `s`.
pub open spec fn max_id_len(s: Seq<Service>) -> nat
    decreases s.len(),
{
    if s.len() == 0 {
        0
    } else {
        let rest = max_id_len(s.drop_last());
        if s.last().identifier@.len() > rest {
            s.last().identifier@.len()
        } else {
            rest
        }
    }
}

proof fn lemma_id_len_bounded(s: Seq<Service>, i: int)
    requires
        0 <= i < s.len(),
    ensures
        s[i].identifier@.len() <= max_id_len(s),
    decreases s.len(),
{
    if i < s.len() - 1 {
        lemma_id_len_bounded(s.drop_last(), i);
    }
}

/// A well-formed registry's identifiers are pairwise distinct, and adding a
/// service whose identifier is not yet present keeps them so: identifiers
/// handed out by successive registrations never repeat.
pub proof fn lemma_distinct_after_fresh_push(s: Seq<Service>, svc: Service)
    requires
        ids_distinct(s),
        !contains_id(s, svc.identifier@),
    ensures
        ids_distinct(s.push(svc)),
{
    let t = s.push(svc);
    assert forall|i: int, j: int| 0 <= i < j < t.len() implies (#[trigger] t[i]).identifier@
        != (#[trigger] t[j]).identifier@ by {
        if j == s.len() {
            assert(t[i] == s[i]);
            if s[i].identifier@ == svc.identifier@ {
                assert(contains_id(s, svc.identifier@));
            }
        } else {
            assert(t[i] == s[i] && t[j] == s[j]);
        }
    }
}

/// A registration's identifier is carried by the registry afterwards; a later
/// registration's identifier, fresh by construction, therefore never repeats
/// it, and identifiers of successive registrations are pairwise distinct.
pub proof fn lemma_registered_identifier_present(s: Seq<Service>, svc: Service)
    ensures
        contains_id(s.push(svc), svc.identifier@),
{
    assert(s.push(svc)[s.len() as int] == svc);
}

proof fn lemma_remove_first_at(s: Seq<u64>, v: u64, i: int)
    requires
        0 <= i < s.len(),
        s[i] == v,
        forall|j: int| 0 <= j < i ==> s[j] != v,
    ensures
        remove_first(s, v) == s.remove(i),
    decreases i,
{
    if i == 0 {
        assert(s.remove(0) =~= s.drop_first());
    } else {
        assert(s[0] != v);
        assert forall|j: int| 0 <= j < i - 1 implies s.drop_first()[j] != v by {
            assert(s.drop_first()[j] == s[j + 1]);
        }
        assert(s.drop_first()[i - 1] == v);
        lemma_remove_first_at(s.drop_first(), v, i - 1);
        assert(s.remove(i) =~= seq![s[0]] + s.drop_first().remove(i - 1));
    }
}

/// Consuming a token whose digest is not outstanding changes nothing.
pub proof fn lemma_remove_first_absent(s: Seq<u64>, v: u64)
    requires
        !s.contains(v),
    ensures
        remove_first(s, v) == s,
    decreases s.len(),
{
    if s.len() > 0 {
        assert(s[0] != v);
        assert(!s.drop_first().contains(v)) by {
            if s.drop_first().contains(v) {
                let j = choose|j: int| 0 <= j < s.drop_first().len() && s.drop_first()[j] == v;
                assert(s[j + 1] == v);
            }
        }
        lemma_remove_first_absent(s.drop_first(), v);
        assert(seq![s[0]] + s.drop_first() =~= s);
    }
}

proof fn lemma_zero_count_absent(s: Seq<u64>, v: u64)
    requires
        count_of(s, v) == 0,
    ensures
        !s.contains(v),
    decreases s.len(),
{
    if s.len() > 0 {
        assert(s[0] != v);
        lemma_zero_count_absent(s.drop_first(), v);
        if s.contains(v) {
            let j = choose|j: int| 0 <= j < s.len() && s[j] == v;
            assert(s.drop_first()[j - 1] == v);
        }
    }
}

/// A token digest held at most once no longer authorizes anything after its
/// removal: a second attempt to consume the same token fails.
pub proof fn lemma_consumed_token_rejected(tokens: Seq<u64>, h: u64)
    requires
        count_of(tokens, h) <= 1,
    ensures
        !remove_first(tokens, h).contains(h),
    decreases tokens.len(),
{
    if tokens.len() == 0 {
    } else if tokens[0] == h {
        assert(count_of(tokens.drop_first(), h) == 0);
        lemma_zero_count_absent(tokens.drop_first(), h);
    } else {
        lemma_consumed_token_rejected(tokens.drop_first(), h);
        let r = remove_first(tokens, h);
        assert(r == seq![tokens[0]] + remove_first(tokens.drop_first(), h));
        if r.contains(h) {
            let j = choose|j: int| 0 <= j < r.len() && r[j] == h;
            assert(r[j] == remove_first(tokens.drop_first(), h)[j - 1]);
            assert(remove_first(tokens.drop_first(), h).contains(h));
        }
    }
}

/// Relies on uuid::Uuid::new_v4 and its Display impl: the hyphenated text
/// form of a version-4 UUID is 36 characters long. Nothing else is assumed
/// of the random value.
#[verifier::external_body]
fn fresh_uuid() -> (r: String)
    ensures
        r@.len() == 36,
{
    uuid::Uuid::new_v4().to_string()
}

/// The single source of truth: the registered services, the digests of the
/// outstanding one-time registration tokens, the subscriptions, and the fixed
/// admin credential digests. State is reached only through the operations
/// below, each of which a process runs as one atomic critical section; no
/// operation does network I/O.
pub struct RegistryStore {
    services: Vec<Service>,
    token_hashes: Vec<u64>,
    subscribers: Vec<Subscriber>,
    admin: AdminCredentials,
}

impl RegistryStore {
    /// The registered services, in registration order.
    pub closed spec fn services(self) -> Seq<Service> {
        self.services@
    }

    /// Digests of the outstanding one-time registration tokens.
    pub closed spec fn token_hashes(self) -> Seq<u64> {
        self.token_hashes@
    }

    /// The subscriptions, in subscription order.
    pub closed spec fn subscribers(self) -> Seq<Subscriber> {
        self.subscribers@
    }

    /// The fixed admin credential digests.
    pub closed spec fn admin(self) -> AdminCredentials {
        self.admin
    }

    /// Identifiers are unique: no two services share one.
    pub open spec fn wf(self) -> bool {
        ids_distinct(self.services())
    }

    /// An empty registry under the given admin credentials.
    pub fn new(admin: AdminCredentials) -> (r: RegistryStore)
        ensures
            r.wf(),
            r.services() == Seq::<Service>::empty(),
            r.token_hashes() == Seq::<u64>::empty(),
            r.subscribers() == Seq::<Subscriber>::empty(),
            r.admin() == admin,
    {
        RegistryStore {
            services: Vec::new(),
            token_hashes: Vec::new(),
            subscribers: Vec::new(),
            admin,
        }
    }

    /// Compare supplied credentials against the fixed admin digests.
    pub fn check_admin(&self, login: &String, password: &String) -> (r: bool)
        ensures
            r == admin_matches(self.admin(), login@, password@),
    {
        check_credentials(&self.admin, login.as_str(), password.as_str())
    }

    /// Whether some service carries the identifier.
    pub fn contains_identifier(&self, identifier: &String) -> (r: bool)
        ensures
            r == contains_id(self.services(), identifier@),
    {
        let n = self.services.len();
        let mut i: usize = 0;
        while i < n
            invariant
                n == self.services@.len(),
                i <= n,
                forall|j: int| 0 <= j < i ==> (#[trigger] self.services@[j]).identifier@ != identifier@,
            decreases n - i,
        {
            if self.services[i].identifier == *identifier {
                return true;
            }
            i += 1;
        }
        false
    }

    /// Issue a fresh single-use token: remember its digest, hand out its text.
    pub fn issue_token(&mut self) -> (token: String)
        ensures
            final(self).token_hashes() == old(self).token_hashes().push(hash_of(token@)),
            final(self).services() == old(self).services(),
            final(self).subscribers() == old(self).subscribers(),
            final(self).admin() == old(self).admin(),
    {
        let token = fresh_uuid();
        let h = hash64(token.as_str());
        self.token_hashes.push(h);
        token
    }

    /// Atomically check and remove the token: true exactly when its digest
    /// was outstanding, in which case the first occurrence is gone afterward.
    pub fn consume_token(&mut self, token: &String) -> (r: bool)
        ensures
            r == old(self).token_hashes().contains(hash_of(token@)),
            final(self).token_hashes() == remove_first(old(self).token_hashes(), hash_of(token@)),
            final(self).services() == old(self).services(),
            final(self).subscribers() == old(self).subscribers(),
            final(self).admin() == old(self).admin(),
    {
        let h = hash64(token.as_str());
        let n = self.token_hashes.len();
        let mut i: usize = 0;
        while i < n
            invariant
                *self == *old(self),
                n == self.token_hashes@.len(),
                i <= n,
                h == hash_of(token@),
                forall|j: int| 0 <= j < i ==> self.token_hashes@[j] != h,
            decreases n - i,
        {
            if self.token_hashes[i] == h {
                self.token_hashes.remove(i);
                proof {
                    assert(old(self).token_hashes()[i as int] == h);
                    lemma_remove_first_at(old(self).token_hashes(), h, i as int);
                }
                return true;
            }
            i += 1;
        }
        proof {
            if old(self).token_hashes().contains(h) {
                let j = choose|j: int|
                    0 <= j < old(self).token_hashes().len() && old(self).token_hashes()[j] == h;
                assert(self.token_hashes@[j] == h);
            }
            lemma_remove_first_absent(old(self).token_hashes(), h);
        }
        false
    }

    /// Add a new service under a freshly generated identifier. The identifier
    /// is not carried by any existing service; all other state is untouched.
    pub fn insert_service(&mut self, service_type: String, healthcheck_endpoint: String, address: String) -> (identifier: String)
        requires
            old(self).wf(),
        ensures
            final(self).wf(),
            !contains_id(old(self).services(), identifier@),
            final(self).services() == old(self).services().push(
                (Service {
                    service_type,
                    available: false,
                    healthcheck_endpoint,
                    is_accepted: false,
                    identifier,
                    address,
                }),
            ),
            final(self).token_hashes() == old(self).token_hashes(),
            final(self).subscribers() == old(self).subscribers(),
            final(self).admin() == old(self).admin(),
    {
        let mut identifier = fresh_uuid();
        let mut taken = self.contains_identifier(&identifier);
        while taken
            invariant
                *self == *old(self),
                taken == contains_id(self.services(), identifier@),
                identifier@.len() >= 1,
            decreases (if identifier@.len() > max_id_len(old(self).services()) {
                0int
            } else {
                max_id_len(old(self).services()) + 1 - identifier@.len()
            }),
        {
            proof {
                let w = choose|w: int|
                    0 <= w < self.services().len() && (#[trigger] self.services()[w]).identifier@
                        == identifier@;
                lemma_id_len_bounded(self.services(), w);
            }
            identifier = identifier.concat(fresh_uuid().as_str());
            taken = self.contains_identifier(&identifier);
        }
        let stored = Service {
            service_type,
            available: false,
            healthcheck_endpoint,
            is_accepted: false,
            identifier: identifier.clone(),
            address,
        };
        proof {
            lemma_distinct_after_fresh_push(old(self).services(), stored);
        }
        self.services.push(stored);
        identifier
    }

    /// Look a service up by identifier; a copy of the entry when present.
    pub fn get_service(&self, identifier: &String) -> (r: Option<Service>)
        ensures
            r is Some <==> contains_id(self.services(), identifier@),
            r matches Some(s) ==> exists|i: int|
                0 <= i < self.services().len() && (#[trigger] self.services()[i]).identifier@
                    == identifier@ && s == self.services()[i],
    {
        let n = self.services.len();
        let mut i: usize = 0;
        while i < n
            invariant
                n == self.services@.len(),
                i <= n,
                forall|j: int| 0 <= j < i ==> (#[trigger] self.services@[j]).identifier@ != identifier@,
            decreases n - i,
        {
            if self.services[i].identifier == *identifier {
                return Some(self.services[i].clone());
            }
            i += 1;
        }
        None
    }

    /// Set the admin-approval flag of the named service: true when it was
    /// found, in which case only that entry's `is_accepted` changed.
    pub fn set_accepted(&mut self, identifier: &String, value: bool) -> (found: bool)
        requires
            old(self).wf(),
        ensures
            final(self).wf(),
            found == contains_id(old(self).services(), identifier@),
            !found ==> final(self).services() == old(self).services(),
            found ==> exists|i: int|
                0 <= i < old(self).services().len() && (#[trigger] old(self).services()[i]).identifier@
                    == identifier@ && final(self).services() == old(self).services().update(
                    i,
                    (Service { is_accepted: value, ..old(self).services()[i] }),
                ),
            final(self).token_hashes() == old(self).token_hashes(),
            final(self).subscribers() == old(self).subscribers(),
            final(self).admin() == old(self).admin(),
    {
        let n = self.services.len();
        let mut i: usize = 0;
        while i < n
            invariant
                old(self).wf(),
                *self == *old(self),
                n == self.services@.len(),
                i <= n,
                forall|j: int| 0 <= j < i ==> (#[trigger] self.services@[j]).identifier@ != identifier@,
            decreases n - i,
        {
            if self.services[i].identifier == *identifier {
                self.services[i].is_accepted = value;
                proof {
                    lemma_update_keeps_distinct(
                        old(self).services(),
                        i as int,
                        (Service { is_accepted: value, ..old(self).services()[i as int] }),
                    );
                }
                return true;
            }
            i += 1;
        }
        false
    }

    /// Record a probe result for the named service; a no-op when the
    /// identifier is gone (the prober has no caller to report to). Only that
    /// entry's `available` changes.
    pub fn set_available(&mut self, identifier: &String, value: bool)
        requires
            old(self).wf(),
        ensures
            final(self).wf(),
            !contains_id(old(self).services(), identifier@) ==> final(self).services() == old(
                self,
            ).services(),
            contains_id(old(self).services(), identifier@) ==> exists|i: int|
                0 <= i < old(self).services().len() && (#[trigger] old(self).services()[i]).identifier@
                    == identifier@ && final(self).services() == old(self).services().update(
                    i,
                    (Service { available: value, ..old(self).services()[i] }),
                ),
            final(self).token_hashes() == old(self).token_hashes(),
            final(self).subscribers() == old(self).subscribers(),
            final(self).admin() == old(self).admin(),
    {
        let n = self.services.len();
        let mut i: usize = 0;
        while i < n
            invariant
                old(self).wf(),
                *self == *old(self),
                n == self.services@.len(),
                i <= n,
                forall|j: int| 0 <= j < i ==> (#[trigger] self.services@[j]).identifier@ != identifier@,
            decreases n - i,
        {
            if self.services[i].identifier == *identifier {
                self.services[i].available = value;
                proof {
                    lemma_update_keeps_distinct(
                        old(self).services(),
                        i as int,
                        (Service { available: value, ..old(self).services()[i as int] }),
                    );
                }
                return;
            }
            i += 1;
        }
    }

    /// Remember a subscription when its target identifier exists: true when
    /// it does, in which case the subscription is appended.
    pub fn add_subscriber(&mut self, params: Subscriber) -> (found: bool)
        ensures
            found == contains_id(old(self).services(), params.identifier@),
            found ==> final(self).subscribers() == old(self).subscribers().push(params),
            !found ==> final(self).subscribers() == old(self).subscribers(),
            final(self).services() == old(self).services(),
            final(self).token_hashes() == old(self).token_hashes(),
            final(self).admin() == old(self).admin(),
    {
        let found = self.contains_identifier(&params.identifier);
        if found {
            self.subscribers.push(params);
        }
        found
    }

    /// How many services are registered.
    pub fn num_services(&self) -> (n: usize)
        ensures
            n == self.services().len(),
    {
        self.services.len()
    }

    /// The service at a position of the registration order.
    pub fn service_at(&self, i: usize) -> (s: &Service)
        requires
            i < self.services().len(),
        ensures
            *s == self.services()[i as int],
    {
        &self.services[i]
    }

    /// How many subscriptions are held.
    pub fn num_subscribers(&self) -> (n: usize)
        ensures
            n == self.subscribers().len(),
    {
        self.subscribers.len()
    }

    /// The subscription at a position of the subscription order.
    pub fn subscriber_at(&self, i: usize) -> (s: &Subscriber)
        requires
            i < self.subscribers().len(),
        ensures
            *s == self.subscribers()[i as int],
    {
        &self.subscribers[i]
    }

    /// List the accepted services that pass the filter, in registration
    /// order, cut to the requested limit. Unaccepted services never appear.
    pub fn find(&self, form: &FindForm) -> (r: Vec<Service>)
        ensures
            r@ == apply_limit(find_matches(self.services(), *form), form.limit),
            forall|k: int| 0 <= k < r@.len() ==> (#[trigger] r@[k]).is_accepted,
    {
        let mut out: Vec<Service> = Vec::new();
        let n = self.services.len();
        let mut i: usize = 0;
        while i < n
            invariant
                n == self.services@.len(),
                i <= n,
                out@ == find_matches(self.services@.take(i as int), *form),
            decreases n - i,
        {
            let svc = &self.services[i];
            let mut ok = svc.is_accepted;
            if ok {
                match &form.service_type {
                    Some(t) => {
                        if !(svc.service_type == *t) {
                            ok = false;
                        }
                    },
                    None => {},
                }
            }
            if ok {
                match form.available {
                    Some(a) => {
                        if svc.available != a {
                            ok = false;
                        }
                    },
                    None => {},
                }
            }
            proof {
                assert(self.services@.take(i as int + 1).drop_last() =~= self.services@.take(
                    i as int,
                ));
                assert(self.services@.take(i as int + 1).last() == self.services@[i as int]);
            }
            if ok {
                out.push(svc.clone());
            }
            i += 1;
        }
        proof {
            assert(self.services@.take(n as int) =~= self.services@);
            lemma_find_matches_sound(self.services@, *form);
        }
        match form.limit {
            Some(l) => {
                out.truncate(l);
            },
            None => {},
        }
        out
    }
}

/// Replacing an entry with one that keeps its identifier keeps identifiers
/// pairwise distinct.
pub proof fn lemma_update_keeps_distinct(s: Seq<Service>, i: int, svc: Service)
    requires
        ids_distinct(s),
        0 <= i < s.len(),
        svc.identifier@ == s[i].identifier@,
    ensures
        ids_distinct(s.update(i, svc)),
{
    let t = s.update(i, svc);
    assert forall|a: int, b: int| 0 <= a < b < t.len() implies (#[trigger] t[a]).identifier@
        != (#[trigger] t[b]).identifier@ by {
        assert(t[a].identifier@ == s[a].identifier@);
        assert(t[b].identifier@ == s[b].identifier@);
    }
}

/// A service passes the filter when it is accepted and equals whatever the
/// optional type and availability predicates require.
pub open spec fn matches_find(s: Service, form: FindForm) -> bool {
    &&& s.is_accepted
    &&& (match form.service_type {
        Some(t) => s.service_type@ == t@,
        None => true,
    })
    &&& (match form.available {
        Some(a) => s.available == a,
        None => true,
    })
}

/// The subsequence of `s` that passes the filter, in order.
pub open spec fn find_matches(s: Seq<Service>, form: FindForm) -> Seq<Service>
    decreases s.len(),
{
    if s.len() == 0 {
        Seq::empty()
    } else if matches_find(s.last(), form) {
        find_matches(s.drop_last(), form).push(s.last())
    } else {
        find_matches(s.drop_last(), form)
    }
}

/// `s` cut to at most `limit` entries, when a limit is given.
pub open spec fn apply_limit(s: Seq<Service>, limit: Option<usize>) -> Seq<Service> {
    match limit {
        Some(l) => if l < s.len() {
            s.take(l as int)
        } else {
            s
        },
        None => s,
    }
}

/// Everything a query returns passes the filter; in particular nothing
/// unaccepted is ever listed.
pub proof fn lemma_find_matches_sound(s: Seq<Service>, form: FindForm)
    ensures
        forall|k: int|
            0 <= k < find_matches(s, form).len() ==> matches_find(
                #[trigger] find_matches(s, form)[k],
                form,
            ),
    decreases s.len(),
{
    if s.len() > 0 {
        lemma_find_matches_sound(s.drop_last(), form);
        let r = find_matches(s, form);
        let rec = find_matches(s.drop_last(), form);
        assert forall|k: int| 0 <= k < r.len() implies matches_find(#[trigger] r[k], form) by {
            if matches_find(s.last(), form) {
                if k < rec.len() {
                    assert(r[k] == rec[k]);
                } else {
                    assert(r[k] == s.last());
                }
            } else {
                assert(r[k] == rec[k]);
            }
        }
    }
}

/// Every accepted entry is listed by a query without filters: acceptance is
/// exactly visibility.
pub proof fn lemma_accepted_listed(s: Seq<Service>, form: FindForm, i: int)
    requires
        form.service_type is None,
        form.available is None,
        0 <= i < s.len(),
        s[i].is_accepted,
    ensures
        exists|k: int|
            0 <= k < find_matches(s, form).len() && (#[trigger] find_matches(s, form)[k]).identifier@
                == s[i].identifier@,
    decreases s.len(),
{
    if i == s.len() - 1 {
        assert(matches_find(s.last(), form));
        let r = find_matches(s, form);
        assert(r[r.len() - 1] == s.last());
    } else {
        lemma_accepted_listed(s.drop_last(), form, i);
        let rec = find_matches(s.drop_last(), form);
        let k = choose|k: int|
            0 <= k < rec.len() && (#[trigger] rec[k]).identifier@ == s.drop_last()[i].identifier@;
        if matches_find(s.last(), form) {
            assert(find_matches(s, form)[k] == rec[k]);
        } else {
            assert(find_matches(s, form) == rec);
        }
    }
}

/// Once an acceptance lands at an entry, a query without filters lists its
/// identifier.
pub proof fn lemma_accept_then_listed(s: Seq<Service>, i: int, form: FindForm)
    requires
        form.service_type is None,
        form.available is None,
        0 <= i < s.len(),
    ensures
        ({
            let t = s.update(i, (Service { is_accepted: true, ..s[i] }));
            exists|k: int|
                0 <= k < find_matches(t, form).len() && (#[trigger] find_matches(t, form)[k]).identifier@
                    == s[i].identifier@
        }),
{
    let t = s.update(i, (Service { is_accepted: true, ..s[i] }));
    lemma_accepted_listed(t, form, i);
}

/// Once a disable lands at an entry of a well-formed registry, no query lists
/// its identifier any more.
pub proof fn lemma_disable_then_not_listed(s: Seq<Service>, i: int, form: FindForm)
    requires
        ids_distinct(s),
        0 <= i < s.len(),
    ensures
        ({
            let t = s.update(i, (Service { is_accepted: false, ..s[i] }));
            forall|k: int|
                0 <= k < find_matches(t, form).len() ==> (#[trigger] find_matches(t, form)[k]).identifier@
                    != s[i].identifier@
        }),
{
    let t = s.update(i, (Service { is_accepted: false, ..s[i] }));
    assert forall|j: int|
        0 <= j < t.len() && (#[trigger] t[j]).identifier@ == s[i].identifier@ implies !t[j].is_accepted by {
        if j != i {
            assert(t[j] == s[j]);
            if j < i {
                assert(s[j].identifier@ != s[i].identifier@);
            } else {
                assert(s[i].identifier@ != s[j].identifier@);
            }
        }
    }
    lemma_disabled_not_listed(t, form, s[i].identifier@);
}

/// An identifier all of whose entries are unaccepted never appears in a
/// query's result.
pub proof fn lemma_disabled_not_listed(s: Seq<Service>, form: FindForm, id: Seq<char>)
    requires
        forall|i: int| 0 <= i < s.len() && (#[trigger] s[i]).identifier@ == id ==> !s[i].is_accepted,
    ensures
        forall|k: int|
            0 <= k < find_matches(s, form).len() ==> (#[trigger] find_matches(s, form)[k]).identifier@
                != id,
    decreases s.len(),
{
    if s.len() > 0 {
        assert forall|i: int|
            0 <= i < s.drop_last().len() && (#[trigger] s.drop_last()[i]).identifier@
                == id implies !s.drop_last()[i].is_accepted by {
            assert(s.drop_last()[i] == s[i]);
        }
        lemma_disabled_not_listed(s.drop_last(), form, id);
        let r = find_matches(s, form);
        let rec = find_matches(s.drop_last(), form);
        assert forall|k: int| 0 <= k < r.len() implies (#[trigger] r[k]).identifier@ != id by {
            if matches_find(s.last(), form) {
                if k < rec.len() {
                    assert(r[k] == rec[k]);
                } else {
                    assert(r[k] == s.last());
                    assert(s[s.len() - 1].identifier@ == id ==> !s[s.len() - 1].is_accepted);
                }
            } else {
                assert(r[k] == rec[k]);
            }
        }
    }
}

} // verus!
