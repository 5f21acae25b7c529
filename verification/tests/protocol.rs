use chia::traits::Streamable;
use chia_peer::protocol::Coin;
use chia_peer::Bytes32;

#[test]
fn coin_ids_are_those_of_the_protocol() {
    let parent = [0x11u8; 32];
    let puzzle_hash = [0x22u8; 32];
    for amount in [0u64, 1, 127, 128, 0xffff, u64::MAX] {
        let ours = Coin::new(Bytes32::new(parent), Bytes32::new(puzzle_hash), amount);
        let theirs = chia_protocol::Coin::new(parent.into(), puzzle_hash.into(), amount);
        assert_eq!(ours.coin_id().to_bytes(), theirs.coin_id().to_bytes());
    }
}

#[test]
fn coin_id_is_a_hash_of_the_fields() {
    let coin = Coin::new(Bytes32::new([1; 32]), Bytes32::new([2; 32]), 3);
    let mut other = coin;
    other.amount = 4;
    assert_ne!(coin.coin_id(), other.coin_id());
    assert_ne!(coin.coin_id(), coin.parent_coin_info);
}

#[test]
fn new_peak_pushes_take_fifty_six_bytes() {
    let push = chia_protocol::NewPeakWallet::new([7u8; 32].into(), 0x0102_0304, 9, 5);
    let bytes = push.to_bytes().unwrap();
    assert_eq!(bytes.len(), 56);
    assert_eq!(bytes[..32], [7u8; 32]);
    assert_eq!(bytes[32..36], [1, 2, 3, 4]);
}

#[test]
fn bytes_round_trip() {
    assert_eq!(Bytes32::new([9; 32]).to_bytes(), [9; 32]);
    assert_eq!(Bytes32::default(), Bytes32::new([0; 32]));
    assert_eq!(
        Bytes32::new([1, 2, 3, 4, 5, 6, 7, 8, 9, 0, 0, 0, 0, 0, 0, 0, 0, 0, 0, 0, 0, 0, 0, 0, 0, 0,
            0, 0, 0, 0, 0, 0]).prefix(),
        0x0102_0304_0506_0708
    );
}
