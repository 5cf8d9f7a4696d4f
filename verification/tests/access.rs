use drv_thru::access::AccessPolicy;
use drv_thru::collections::StrMap;
use drv_thru::config::{ServerConfig, TrustedClient};
use drv_thru::endpoint::EndpointId;

fn new_id() -> EndpointId {
    EndpointId::from_bytes(*iroh::SecretKey::generate().public().as_bytes()).unwrap()
}

fn config_with_client(
    name: &str,
    endpoint_id: &EndpointId,
    max_build_time: Option<String>,
) -> ServerConfig {
    let mut trusted_clients = StrMap::new();
    trusted_clients.insert(
        name.to_string(),
        TrustedClient {
            public_key: endpoint_id.to_text(),
            max_build_time,
            max_upload_bytes: None,
        },
    );

    ServerConfig::from_settings(
        "/tmp/drv-thru".to_string(),
        None,
        Some(1),
        None,
        None,
        trusted_clients,
    )
}

#[test]
fn authorizes_named_client() {
    let endpoint_id = new_id();
    let config = config_with_client("laptop", &endpoint_id, Some("30m".to_string()));
    let policy = AccessPolicy::from_config(&config).unwrap_or_else(|_| panic!("refused"));

    let client = policy.authorize(&endpoint_id).unwrap_or_else(|| panic!("unknown"));
    assert_eq!(client.name.as_deref(), Some("laptop"));
    assert_eq!(client.policy.max_build_time.as_deref(), Some("30m"));
}

#[test]
fn rejects_unknown_client() {
    let trusted = new_id();
    let unknown = new_id();
    let config = config_with_client("laptop", &trusted, None);
    let policy = AccessPolicy::from_config(&config).unwrap_or_else(|_| panic!("refused"));

    assert!(policy.authorize(&unknown).is_none());
}

#[test]
fn endpoints_of_the_command_line_have_no_names() {
    let trusted = new_id();
    let policy = AccessPolicy::from_endpoint_ids(vec![trusted]);
    let client = policy.authorize(&trusted).unwrap_or_else(|| panic!("unknown"));
    assert_eq!(client.name, None);
    assert!(policy.authorize(&new_id()).is_none());
}

#[test]
fn keys_of_a_configuration_are_keys() {
    let mut trusted_clients = StrMap::new();
    trusted_clients.insert(
        "laptop".to_string(),
        TrustedClient::from_settings("nonsense".to_string(), None, None),
    );
    let config = ServerConfig::from_settings(
        "/d".to_string(),
        None,
        None,
        None,
        None,
        trusted_clients,
    );
    assert!(AccessPolicy::from_config(&config).is_err());
}

#[test]
fn ids_are_those_of_iroh() {
    let secret = iroh::SecretKey::generate();
    let id = EndpointId::of_secret(&secret.to_bytes());
    assert_eq!(id.as_bytes(), secret.public().as_bytes());
    assert_eq!(id.to_text(), secret.public().to_string());
    let parsed = EndpointId::parse(&secret.public().to_string()).unwrap();
    assert!(parsed.same(&id));
    assert_eq!(
        EndpointId::parse("nonsense").err(),
        "nonsense".parse::<iroh::EndpointId>().err().map(|err| err.to_string())
    );
    assert!(EndpointId::from_bytes(*id.as_bytes()).unwrap().same(&id));
    for byte in 0..=255u8 {
        assert_eq!(
            EndpointId::from_bytes([byte; 32]).is_some(),
            iroh::EndpointId::from_bytes(&[byte; 32]).is_ok()
        );
    }
    assert!((0..=255u8).any(|byte| EndpointId::from_bytes([byte; 32]).is_none()));
}

#[test]
fn relay_urls_are_those_of_iroh() {
    let printed = drv_thru::endpoint::parse_relay_url("https://use1-1.relay.n0.iroh.link.");
    assert_eq!(printed.as_deref(), Ok("https://use1-1.relay.n0.iroh.link./"));
    assert_eq!(
        drv_thru::endpoint::parse_relay_url("no url").err(),
        "no url".parse::<iroh::RelayUrl>().err().map(|err| err.to_string())
    );
}

#[test]
fn configurations_are_put_together_from_keys() {
    let me = EndpointId::of_secret(&[1; 32]);
    let config = config_with_client("laptop", &me, Some("5m".to_string()));
    let policy = AccessPolicy::from_keys(&config.trusted_clients, &[Ok(me)])
        .unwrap_or_else(|_| panic!("refused"));
    assert_eq!(policy.authorize(&me).unwrap().name.as_deref(), Some("laptop"));
    assert!(policy.authorize(&EndpointId::of_secret(&[2; 32])).is_none());
    let Err(err) = AccessPolicy::from_keys(&config.trusted_clients, &[Err("why".to_string())])
    else {
        panic!("accepted");
    };
    assert_eq!(
        err.messages(),
        ["parse public_key for trusted client laptop", "why"]
    );
}
