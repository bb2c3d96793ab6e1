use service_registry::auth::{accept_service, register_service, new_token, subscribe, AdminOutcome, RegisterOutcome};
use service_registry::credentials::AdminCredentials;
use service_registry::notifier::{callback_url, notification_targets, EventKind};
use service_registry::scheduler::{probe_url, snapshot_accepted};
use service_registry::service::{AcceptForm, NewTokenForm, ServiceForm, SubscribeForm};
use service_registry::store::RegistryStore;
use service_registry::urls::build_registration_url;

fn fresh_store() -> RegistryStore {
    RegistryStore::new(AdminCredentials::from_plain("admin", "swordfish"))
}

fn register_and_accept(store: &mut RegistryStore, service_type: &str, addr: &str) -> String {
    let token = new_token(
        store,
        &NewTokenForm { login: "admin".to_string(), password: "swordfish".to_string() },
    )
    .expect("correct credentials must yield a token")
    .token;
    let form = ServiceForm {
        service_type: service_type.to_string(),
        access_token: token,
        healthcheck_endpoint: "/health".to_string(),
        port: 8080,
    };
    let id = match register_service(store, &form, &addr.to_string()) {
        RegisterOutcome::Registered(id) => id,
        _ => panic!("registration with a fresh token must succeed"),
    };
    let accept = AcceptForm {
        login: "admin".to_string(),
        password: "swordfish".to_string(),
        identifier: id.clone(),
    };
    assert!(matches!(accept_service(store, &accept), AdminOutcome::Done));
    id
}

#[test]
fn registration_url_carries_the_declared_port() {
    assert_eq!(
        build_registration_url("1.2.3.4:5678", 8080).as_deref(),
        Some("http://1.2.3.4:8080/")
    );
    assert_eq!(build_registration_url("registry.example:1000", 80).as_deref(), Some("http://registry.example/"));
    assert_eq!(build_registration_url("no spaces allowed", 8080), None);
}

#[test]
fn probe_url_resolves_the_endpoint_against_the_address() {
    let mut store = fresh_store();
    let id = register_and_accept(&mut store, "web", "1.2.3.4:5678");
    let svc = store.get_service(&id).expect("the fresh identifier must be present");
    assert_eq!(probe_url(&svc).as_deref(), Some("http://1.2.3.4:8080/health"));
}

#[test]
fn snapshot_holds_exactly_the_accepted_services() {
    let mut store = fresh_store();
    let accepted = register_and_accept(&mut store, "web", "1.2.3.4:5678");
    // A second service is registered and never accepted.
    let token = new_token(
        &mut store,
        &NewTokenForm { login: "admin".to_string(), password: "swordfish".to_string() },
    )
    .expect("correct credentials must yield a token")
    .token;
    let form = ServiceForm {
        service_type: "db".to_string(),
        access_token: token,
        healthcheck_endpoint: "/health".to_string(),
        port: 8080,
    };
    assert!(matches!(
        register_service(&mut store, &form, &"5.6.7.8:4444".to_string()),
        RegisterOutcome::Registered(_)
    ));
    let snapshot = snapshot_accepted(&store);
    assert_eq!(snapshot.len(), 1);
    assert_eq!(snapshot[0].identifier, accepted);
}

#[test]
fn failed_probe_touches_only_the_probed_service() {
    let mut store = fresh_store();
    let first = register_and_accept(&mut store, "web", "1.2.3.4:5678");
    let second = register_and_accept(&mut store, "db", "5.6.7.8:4444");
    store.set_available(&first, true);
    store.set_available(&second, true);
    // The next round: the first service's probe fails, the second's succeeds.
    store.set_available(&first, false);
    store.set_available(&second, true);
    let first_entry = store.get_service(&first).expect("the entry must still be present");
    let second_entry = store.get_service(&second).expect("the entry must still be present");
    assert!(!first_entry.available);
    assert!(second_entry.available);
    assert!(first_entry.is_accepted);
}

#[test]
fn probe_result_for_a_vanished_identifier_is_ignored() {
    let mut store = fresh_store();
    let id = register_and_accept(&mut store, "web", "1.2.3.4:5678");
    store.set_available(&"gone".to_string(), true);
    let entry = store.get_service(&id).expect("the entry must still be present");
    assert!(!entry.available);
    assert!(store.get_service(&"gone".to_string()).is_none());
}

#[test]
fn acceptance_notifies_the_one_matching_subscriber() {
    let mut store = fresh_store();
    let id = register_and_accept(&mut store, "web", "1.2.3.4:5678");
    let sub = SubscribeForm {
        login: "admin".to_string(),
        password: "swordfish".to_string(),
        identifier: id.clone(),
        on_registration: false,
        on_acceptance: true,
        endpoint: "/hook".to_string(),
    };
    assert!(matches!(subscribe(&mut store, &sub), AdminOutcome::Done));
    let targets = notification_targets(&store, EventKind::Accepted, &id);
    assert_eq!(targets.len(), 1);
    assert_eq!(targets[0].endpoint, "/hook");
    assert_eq!(targets[0].identifier, id);
    // The same subscription asked for no registration events.
    assert!(notification_targets(&store, EventKind::Registered, &id).is_empty());
}

#[test]
fn subscription_without_the_flag_draws_no_delivery() {
    let mut store = fresh_store();
    let id = register_and_accept(&mut store, "web", "1.2.3.4:5678");
    let sub = SubscribeForm {
        login: "admin".to_string(),
        password: "swordfish".to_string(),
        identifier: id.clone(),
        on_registration: true,
        on_acceptance: false,
        endpoint: "/hook".to_string(),
    };
    assert!(matches!(subscribe(&mut store, &sub), AdminOutcome::Done));
    assert!(notification_targets(&store, EventKind::Accepted, &id).is_empty());
    assert_eq!(notification_targets(&store, EventKind::Registered, &id).len(), 1);
}

#[test]
fn subscriptions_for_other_identifiers_do_not_match() {
    let mut store = fresh_store();
    let watched = register_and_accept(&mut store, "web", "1.2.3.4:5678");
    let other = register_and_accept(&mut store, "db", "5.6.7.8:4444");
    let sub = SubscribeForm {
        login: "admin".to_string(),
        password: "swordfish".to_string(),
        identifier: watched.clone(),
        on_registration: true,
        on_acceptance: true,
        endpoint: "/hook".to_string(),
    };
    assert!(matches!(subscribe(&mut store, &sub), AdminOutcome::Done));
    assert!(notification_targets(&store, EventKind::Accepted, &other).is_empty());
    assert_eq!(notification_targets(&store, EventKind::Accepted, &watched).len(), 1);
}

#[test]
fn every_matching_subscriber_is_a_target() {
    let mut store = fresh_store();
    let id = register_and_accept(&mut store, "web", "1.2.3.4:5678");
    for endpoint in ["/first", "/second"] {
        let sub = SubscribeForm {
            login: "admin".to_string(),
            password: "swordfish".to_string(),
            identifier: id.clone(),
            on_registration: false,
            on_acceptance: true,
            endpoint: endpoint.to_string(),
        };
        assert!(matches!(subscribe(&mut store, &sub), AdminOutcome::Done));
    }
    let targets = notification_targets(&store, EventKind::Accepted, &id);
    assert_eq!(targets.len(), 2);
    assert_eq!(targets[0].endpoint, "/first");
    assert_eq!(targets[1].endpoint, "/second");
}

#[test]
fn callback_url_resolves_the_subscriber_endpoint() {
    let mut store = fresh_store();
    let id = register_and_accept(&mut store, "web", "1.2.3.4:5678");
    let svc = store.get_service(&id).expect("the fresh identifier must be present");
    assert_eq!(
        callback_url(&svc, &"/hook".to_string()).as_deref(),
        Some("http://1.2.3.4:8080/hook")
    );
    assert_eq!(
        callback_url(&svc, &"hook/accepted".to_string()).as_deref(),
        Some("http://1.2.3.4:8080/hook/accepted")
    );
}
