use chia_peer::{ChainSourceError, ChiaPeerError};

#[test]
fn timeout_variant_maps_to_timeout() {
    assert_eq!(
        ChainSourceError::from(ChiaPeerError::Timeout),
        ChainSourceError::Timeout
    );
}

#[test]
fn timed_out_transport_message_maps_to_timeout() {
    let mapped = ChainSourceError::from(ChiaPeerError::Transport("request timed out".into()));
    assert_eq!(mapped, ChainSourceError::Timeout);
}

#[test]
fn plain_transport_maps_to_transport_never_absence() {
    let mapped = ChainSourceError::from(ChiaPeerError::Transport("socket reset".into()));
    assert_eq!(mapped, ChainSourceError::Transport("socket reset".into()));
}

#[test]
fn rejected_maps_to_transport() {
    let mapped = ChainSourceError::from(ChiaPeerError::Rejected("reorg".into()));
    assert!(matches!(mapped, ChainSourceError::Transport(_)));
}

#[test]
fn malformed_maps_to_malformed() {
    let mapped = ChainSourceError::from(ChiaPeerError::Malformed("bad bytes".into()));
    assert!(matches!(mapped, ChainSourceError::Malformed(_)));
}

#[test]
fn not_connected_and_discovery_and_tls_map_to_transport() {
    assert!(matches!(
        ChainSourceError::from(ChiaPeerError::NotConnected),
        ChainSourceError::Transport(_)
    ));
    assert!(matches!(
        ChainSourceError::from(ChiaPeerError::PeerDiscoveryFailed),
        ChainSourceError::Transport(_)
    ));
    assert!(matches!(
        ChainSourceError::from(ChiaPeerError::Tls("x".into())),
        ChainSourceError::Transport(_)
    ));
}

#[test]
fn mapped_messages_are_exact() {
    assert_eq!(
        ChainSourceError::from(ChiaPeerError::Tls("no key".into())),
        ChainSourceError::Transport("TLS: no key".into())
    );
    assert_eq!(
        ChainSourceError::from(ChiaPeerError::NotConnected),
        ChainSourceError::Transport("light client is not connected".into())
    );
    assert_eq!(
        ChainSourceError::from(ChiaPeerError::PeerDiscoveryFailed),
        ChainSourceError::Transport("peer discovery failed".into())
    );
    // Only a transport message is searched for a timeout.
    assert_eq!(
        ChainSourceError::from(ChiaPeerError::Rejected("timeout".into())),
        ChainSourceError::Transport("timeout".into())
    );
}

#[test]
fn timeouts_are_named_in_any_case_and_anywhere() {
    assert!(ChiaPeerError::looks_like_timeout("TIMEOUT"));
    assert!(ChiaPeerError::looks_like_timeout("it Timed Out, sadly"));
    assert!(ChiaPeerError::looks_like_timeout("timeout"));
    assert!(!ChiaPeerError::looks_like_timeout("time out"));
    assert!(!ChiaPeerError::looks_like_timeout("timeou"));
    assert!(!ChiaPeerError::looks_like_timeout(""));
}

#[test]
fn errors_read_as_documented() {
    let text = |error: ChiaPeerError| error.describe();
    assert_eq!(
        text(ChiaPeerError::Transport("x".into())),
        "chia peer transport error: x"
    );
    assert_eq!(
        text(ChiaPeerError::Rejected("x".into())),
        "chia peer rejected the request: x"
    );
    assert_eq!(
        text(ChiaPeerError::Malformed("x".into())),
        "malformed chia peer response: x"
    );
    assert_eq!(text(ChiaPeerError::Timeout), "chia peer request timed out");
    assert_eq!(
        text(ChiaPeerError::PeerDiscoveryFailed),
        "chia peer discovery failed"
    );
    assert_eq!(
        text(ChiaPeerError::NotConnected),
        "chia light client is not connected"
    );
    assert_eq!(
        text(ChiaPeerError::Tls("x".into())),
        "chia peer TLS setup error: x"
    );
}
