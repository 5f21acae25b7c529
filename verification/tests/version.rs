use chia_peer::VERSION;

#[test]
fn version_is_reported() {
    assert!(!VERSION.is_empty());
    assert_eq!(VERSION, "0.1.2");
}
