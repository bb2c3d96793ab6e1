use vstd::prelude::*;

use crate::service::Service;
use crate::store::{RegistryStore, Subscriber};
use crate::urls::{join_url, joined_url_of};

verus! {

/// The two state transitions subscribers can be told about.
#[derive(Clone, Copy)]
pub enum EventKind {
    Registered,
    Accepted,
}

/// Whether the subscription asks for this kind of event.
pub open spec fn wants(sub: Subscriber, event: EventKind) -> bool {
    match event {
        EventKind::Registered => sub.on_registration,
        EventKind::Accepted => sub.on_acceptance,
    }
}

/// Whether the subscription watches the subject and asks for the event.
pub open spec fn matches_event(sub: Subscriber, event: EventKind, subject: Seq<char>) -> bool {
    sub.identifier@ == subject && wants(sub, event)
}

/// The subscriptions that match the event for the subject, in order.
pub open spec fn targets_of(subs: Seq<Subscriber>, event: EventKind, subject: Seq<char>) -> Seq<
    Subscriber,
>
    decreases subs.len(),
{
    if subs.len() == 0 {
        Seq::empty()
    } else if matches_event(subs.last(), event, subject) {
        targets_of(subs.drop_last(), event, subject).push(subs.last())
    } else {
        targets_of(subs.drop_last(), event, subject)
    }
}

/// Select the subscribers an event for the subject identifier goes to: those
/// watching that identifier whose flag for the event is set, each exactly
/// once, with the endpoint captured at subscribe time.
pub fn notification_targets(store: &RegistryStore, event: EventKind, subject: &String) -> (r: Vec<
    Subscriber,
>)
    ensures
        r@ == targets_of(store.subscribers(), event, subject@),
{
    let mut out: Vec<Subscriber> = Vec::new();
    let n = store.num_subscribers();
    let mut i: usize = 0;
    while i < n
        invariant
            n == store.subscribers().len(),
            i <= n,
            out@ == targets_of(store.subscribers().take(i as int), event, subject@),
        decreases n - i,
    {
        let sub = store.subscriber_at(i);
        let wanted = match event {
            EventKind::Registered => sub.on_registration,
            EventKind::Accepted => sub.on_acceptance,
        };
        proof {
            assert(store.subscribers().take(i as int + 1).drop_last() =~= store.subscribers().take(
                i as int,
            ));
            assert(store.subscribers().take(i as int + 1).last() == store.subscribers()[i as int]);
        }
        if wanted && sub.identifier == *subject {
            out.push(sub.clone());
        }
        i += 1;
    }
    proof {
        assert(store.subscribers().take(n as int) =~= store.subscribers());
    }
    out
}

/// The URL a callback for the subject goes to: the subscriber's endpoint
/// resolved against the subject's address; None when it does not resolve, in
/// which case no delivery is attempted.
pub fn callback_url(subject: &Service, endpoint: &String) -> (r: Option<String>)
    ensures
        r is Some <==> joined_url_of(subject.address@, endpoint@) is Some,
        r matches Some(u) ==> Some(u@) == joined_url_of(subject.address@, endpoint@),
{
    join_url(subject.address.as_str(), endpoint.as_str())
}

/// A subscription for the subject with the event's flag set, added to
/// subscriptions none of which match, is afterwards the one and only target
/// of that event for that subject.
pub proof fn lemma_single_subscription_notified(
    subs: Seq<Subscriber>,
    sub: Subscriber,
    event: EventKind,
    subject: Seq<char>,
)
    requires
        targets_of(subs, event, subject) == Seq::<Subscriber>::empty(),
        matches_event(sub, event, subject),
    ensures
        targets_of(subs.push(sub), event, subject) == seq![sub],
{
    let t = subs.push(sub);
    assert(t.last() == sub);
    assert(t.drop_last() =~= subs);
    assert(Seq::<Subscriber>::empty().push(sub) =~= seq![sub]);
}

/// A subscription whose flag for the event is unset draws no delivery: the
/// targets are exactly those from the other subscriptions.
pub proof fn lemma_unflagged_subscription_not_notified(
    subs: Seq<Subscriber>,
    sub: Subscriber,
    event: EventKind,
    subject: Seq<char>,
)
    requires
        !matches_event(sub, event, subject),
    ensures
        targets_of(subs.push(sub), event, subject) == targets_of(subs, event, subject),
{
    let t = subs.push(sub);
    assert(t.last() == sub);
    assert(t.drop_last() =~= subs);
}

} // verus!
