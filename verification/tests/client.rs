use mihomo_api::{CachedControlClient, Snapshot, TransportError};

fn data(doc: &str) -> Snapshot {
    Snapshot::Data(doc.to_string())
}

#[test]
fn fresh_client_is_empty() {
    let client = CachedControlClient::new("/tmp/engine.sock".to_string());
    assert_eq!(client.address(), "/tmp/engine.sock");
    assert_eq!(client.get_proxies_snapshot(), Snapshot::Empty);
    assert_eq!(client.get_provider_proxies_snapshot(), Snapshot::Empty);
    assert!(client.get_proxies_snapshot().is_empty());
    assert!(client.get_provider_proxies_snapshot().is_empty());
}

#[test]
fn successful_refresh_replaces_only_its_domain() {
    let mut client = CachedControlClient::new("sock".to_string());
    let outcome = client.refresh_proxies(Ok("proxy listing".to_string()));
    assert!(outcome.is_ok());
    assert_eq!(client.get_proxies_snapshot(), data("proxy listing"));
    assert_eq!(client.get_provider_proxies_snapshot(), Snapshot::Empty);
}

#[test]
fn successful_provider_refresh_replaces_only_its_domain() {
    let mut client = CachedControlClient::new("sock".to_string());
    let outcome = client.refresh_provider_proxies(Ok("provider listing".to_string()));
    assert!(outcome.is_ok());
    assert_eq!(client.get_proxies_snapshot(), Snapshot::Empty);
    assert_eq!(client.get_provider_proxies_snapshot(), data("provider listing"));
}

#[test]
fn failed_refresh_keeps_previous_snapshot() {
    let mut client = CachedControlClient::new("sock".to_string());
    client.refresh_proxies(Ok("old data".to_string())).unwrap();

    let outcome = client.refresh_proxies(Err(TransportError::Timeout));
    assert_eq!(outcome, Err(TransportError::Timeout));
    assert_eq!(client.get_proxies_snapshot(), data("old data"));
    assert_eq!(client.get_provider_proxies_snapshot(), Snapshot::Empty);
}

#[test]
fn failed_refresh_on_fresh_client_stays_empty() {
    let mut client = CachedControlClient::new("sock".to_string());
    let outcome = client.refresh_proxies(Err(TransportError::ConnectionRefused));
    assert_eq!(outcome, Err(TransportError::ConnectionRefused));
    assert_eq!(client.get_proxies_snapshot(), Snapshot::Empty);

    let outcome = client.refresh_provider_proxies(Err(TransportError::MalformedResponse));
    assert_eq!(outcome, Err(TransportError::MalformedResponse));
    assert_eq!(client.get_provider_proxies_snapshot(), Snapshot::Empty);
}

#[test]
fn domains_do_not_contaminate_each_other() {
    let mut client = CachedControlClient::new("sock".to_string());
    client.refresh_proxies(Ok("proxies v1".to_string())).unwrap();
    client
        .refresh_provider_proxies(Ok("providers v1".to_string()))
        .unwrap();
    assert_eq!(client.get_proxies_snapshot(), data("proxies v1"));
    assert_eq!(client.get_provider_proxies_snapshot(), data("providers v1"));

    // a failure in one domain leaves the other's data alone too
    client
        .refresh_provider_proxies(Err(TransportError::Timeout))
        .unwrap_err();
    client.refresh_proxies(Ok("proxies v2".to_string())).unwrap();
    assert_eq!(client.get_proxies_snapshot(), data("proxies v2"));
    assert_eq!(client.get_provider_proxies_snapshot(), data("providers v1"));
}

#[test]
fn last_writer_wins_within_a_domain() {
    let mut client = CachedControlClient::new("sock".to_string());
    client.refresh_proxies(Ok("first".to_string())).unwrap();
    client.refresh_proxies(Ok("second".to_string())).unwrap();
    assert_eq!(client.get_proxies_snapshot(), data("second"));
}

#[test]
fn reads_return_whole_snapshots() {
    let mut client = CachedControlClient::new("sock".to_string());
    client.refresh_proxies(Ok("a full document".to_string())).unwrap();
    let seen = client.get_proxies_snapshot();
    // the read hands back exactly the stored document, never a partial value
    match seen {
        Snapshot::Data(doc) => assert_eq!(doc, "a full document"),
        Snapshot::Empty => panic!("snapshot lost"),
    }
}
