use chia_peer::config::Timeout;
use chia_peer::{ChiaNetwork, ChiaPeerConfig, SocketAddr};

#[test]
fn network_ids_and_ports_are_canonical() {
    assert_eq!(ChiaNetwork::Mainnet.network_id(), "mainnet");
    assert_eq!(ChiaNetwork::Testnet11.network_id(), "testnet11");
    assert_eq!(ChiaNetwork::Mainnet.default_port(), 8444);
    assert_eq!(ChiaNetwork::Testnet11.default_port(), 58444);
}

#[test]
fn genesis_challenge_differs_per_network() {
    assert_ne!(
        ChiaNetwork::Mainnet.genesis_challenge(),
        ChiaNetwork::Testnet11.genesis_challenge()
    );
}

#[test]
fn genesis_challenges_are_the_networks_own() {
    let hex = |bytes: [u8; 32]| -> String { bytes.iter().map(|b| format!("{b:02x}")).collect() };
    assert_eq!(
        hex(ChiaNetwork::Mainnet.genesis_challenge().to_bytes()),
        "ccd5bb71183532bff220ba46c268991a3ff07eb358e8255a65c30a2dce0e5fbb"
    );
    assert_eq!(
        hex(ChiaNetwork::Testnet11.genesis_challenge().to_bytes()),
        "37a90eb5185a9c4439a91ddc98bbadce7b4feba060d50116a067de66bf236615"
    );
}

#[test]
fn discovering_config_is_untrusted_with_no_endpoint() {
    let cfg = ChiaPeerConfig::mainnet();
    assert!(!cfg.trusted);
    assert!(cfg.endpoint.is_none());
    assert_eq!(cfg.network, ChiaNetwork::Mainnet);
    assert_eq!(cfg.connect_timeout, Timeout { secs: 5, nanos: 0 });
    assert_eq!(cfg.request_timeout, Timeout { secs: 15, nanos: 0 });
    assert_eq!(ChiaPeerConfig::discovering(ChiaNetwork::Mainnet), cfg);
}

#[test]
fn trusted_endpoint_marks_config_trusted() {
    let addr = SocketAddr::v4([127, 0, 0, 1], 8444);
    let cfg = ChiaPeerConfig::testnet11().with_trusted_endpoint(addr);
    assert!(cfg.trusted);
    assert_eq!(cfg.endpoint, Some(addr));
    assert_eq!(cfg.network, ChiaNetwork::Testnet11);
}

#[test]
fn with_tls_sets_both_paths() {
    let cfg = ChiaPeerConfig::mainnet().with_tls("cert.pem", "key.pem");
    assert_eq!(cfg.tls_cert_path.as_deref(), Some("cert.pem"));
    assert_eq!(cfg.tls_key_path.as_deref(), Some("key.pem"));
}
