use chia_peer::ordering::order_candidates;
use chia_peer::SocketAddr;

fn v4(a: u8, b: u8, c: u8, d: u8) -> SocketAddr {
    SocketAddr::v4([a, b, c, d], 8444)
}

fn v6(seg: u16) -> SocketAddr {
    SocketAddr::v6([0x2001, 0xdb8, 0, 0, 0, 0, 0, seg], 8444)
}

fn v6_localhost() -> SocketAddr {
    SocketAddr::v6([0, 0, 0, 0, 0, 0, 0, 1], 8444)
}

#[test]
fn all_ipv6_come_before_any_ipv4() {
    let mixed = vec![v4(1, 1, 1, 1), v6(1), v4(2, 2, 2, 2), v6(2)];
    let ordered = order_candidates(&mixed);

    let first_v4 = ordered.iter().position(|a| a.is_ipv4()).unwrap();
    let last_v6 = ordered.iter().rposition(|a| a.is_ipv6()).unwrap();
    assert!(
        last_v6 < first_v4,
        "every IPv6 must precede every IPv4: {ordered:?}"
    );
}

#[test]
fn ipv6_loopback_precedes_ipv4_loopback() {
    let v6_lo = v6_localhost();
    let v4_lo = v4(127, 0, 0, 1);
    let ordered = order_candidates(&[v4_lo, v6_lo]);
    assert_eq!(ordered, vec![v6_lo, v4_lo]);
}

#[test]
fn loopback_precedes_public_within_family() {
    let v6_lo = v6_localhost();
    let ordered = order_candidates(&[v6(9), v6_lo]);
    assert_eq!(
        ordered[0], v6_lo,
        "loopback should be tried first: {ordered:?}"
    );
}

#[test]
fn ordering_preserves_every_candidate() {
    let mixed = vec![v4(1, 1, 1, 1), v6(1), v4(2, 2, 2, 2), v6(2), v6(3)];
    let ordered = order_candidates(&mixed);
    assert_eq!(ordered.len(), mixed.len());
    for addr in &mixed {
        assert!(ordered.contains(addr), "{addr:?} was dropped");
    }
}

#[test]
fn ipv4_only_input_is_returned_as_fallback() {
    let only_v4 = vec![v4(1, 1, 1, 1), v4(2, 2, 2, 2)];
    let ordered = order_candidates(&only_v4);
    assert_eq!(ordered, only_v4, "IPv4 must remain a usable fallback");
}

#[test]
fn empty_input_yields_empty_output() {
    assert!(order_candidates(&[]).is_empty());
}

#[test]
fn ordering_is_stable_within_each_rank() {
    let given = [
        v4(9, 9, 9, 9),
        v6(5),
        v4(127, 0, 0, 2),
        v6(3),
        v4(8, 8, 8, 8),
        v6_localhost(),
        v4(127, 1, 1, 1),
    ];
    let ordered = order_candidates(&given);
    assert_eq!(
        ordered,
        vec![
            v6_localhost(),
            v6(5),
            v6(3),
            v4(127, 0, 0, 2),
            v4(127, 1, 1, 1),
            v4(9, 9, 9, 9),
            v4(8, 8, 8, 8),
        ]
    );
    assert_eq!(order_candidates(&ordered), ordered);
}
