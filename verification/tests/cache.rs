use chia_peer::cache::CoinStateCache;
use chia_peer::protocol::{Coin, CoinState};
use chia_peer::Bytes32;

fn coin(seed: u8, amount: u64) -> Coin {
    Coin::new(
        Bytes32::new([seed; 32]),
        Bytes32::new([seed ^ 0xff; 32]),
        amount,
    )
}

fn state(seed: u8, created: Option<u32>, spent: Option<u32>) -> CoinState {
    CoinState {
        coin: coin(seed, 1),
        created_height: created,
        spent_height: spent,
    }
}

fn hash(seed: u8) -> Bytes32 {
    Bytes32::new([seed; 32])
}

#[test]
fn seed_then_get_returns_state() {
    let mut cache = CoinStateCache::new();
    let s = state(1, Some(100), None);
    let id = s.coin.coin_id();
    cache.seed(&[s]);
    assert_eq!(cache.get(id), Some(s));
}

#[test]
fn peak_only_advances() {
    let mut cache = CoinStateCache::new();
    cache.set_peak(100, Bytes32::new([1; 32]));
    cache.set_peak(90, Bytes32::new([2; 32])); // stale lower peak
    assert_eq!(cache.peak().map(|(h, _)| h), Some(100));
}

#[test]
fn subscription_tracking_roundtrips() {
    let mut cache = CoinStateCache::new();
    let id = coin(5, 1).coin_id();
    cache.track_coins(&[id]);
    assert!(cache.is_subscribed_coin(id));
    assert_eq!(cache.subscribed_coins(), vec![id]);
    cache.untrack_coins(&[id]);
    assert!(!cache.is_subscribed_coin(id));
    cache.track_puzzle_hashes(&[Bytes32::new([7; 32])]);
    assert_eq!(cache.subscribed_puzzle_hashes().len(), 1);
}

/// An update at a forked, lower peak overwrites re-asserted coins, drops coins created above the
/// fork, and un-spends coins spent above it.
#[test]
fn reorg_update_rolls_cache_back_across_fork() {
    let mut cache = CoinStateCache::new();

    // X exists before the reorg, spent at 92.
    let x_pre = state(1, Some(80), Some(92));
    let x_id = x_pre.coin.coin_id();
    // Y was created at 95 (above the fork) and is not re-asserted by the update.
    let y_pre = state(2, Some(95), None);
    let y_id = y_pre.coin.coin_id();
    // Z was created at 50 but spent at 93 (above the fork).
    let z_pre = state(3, Some(50), Some(93));
    let z_id = z_pre.coin.coin_id();
    cache.track_coins(&[x_id]); // X is subscribed, so its re-assertion is accepted
    cache.seed(&[x_pre, y_pre, z_pre]);
    cache.set_peak(100, Bytes32::new([0xaa; 32]));

    // Reorg to a lower peak (90), fork point 89. The update re-asserts X as unspent.
    let x_post = state(1, Some(80), None);
    cache.apply_update(&[x_post], 90, 89, Bytes32::new([0xbb; 32]));

    assert_eq!(cache.get(x_id), Some(x_post));
    assert_eq!(cache.get(y_id), None);
    assert_eq!(cache.get(z_id).and_then(|s| s.spent_height), None);
    assert_eq!(cache.get(z_id), Some(state(3, Some(50), None)));
    // Nothing subscribed was undone, so the dip to 90 does not regress the tracked peak of 100.
    assert_eq!(cache.peak(), Some((100, Bytes32::new([0xaa; 32]))));
}

#[test]
fn normal_update_inserts_without_dropping_lower_coins() {
    let mut cache = CoinStateCache::new();
    let old = state(1, Some(10), None);
    let old_id = old.coin.coin_id();
    cache.seed(&[old]);

    let fresh = state(2, Some(200), None);
    let fresh_id = fresh.coin.coin_id();
    cache.track_coins(&[old_id, fresh_id]); // both subscribed
    cache.apply_update(&[fresh], 200, 199, Bytes32::new([0xcc; 32]));

    assert!(
        cache.get(old_id).is_some(),
        "coin below the fork is retained"
    );
    assert!(cache.get(fresh_id).is_some(), "new coin is inserted");
}

#[test]
fn unsolicited_update_item_is_dropped_not_cached() {
    let mut cache = CoinStateCache::new();
    // Nothing is subscribed. A hostile peer streams an unsolicited coin.
    let injected = state(9, Some(10), None);
    let injected_id = injected.coin.coin_id();
    cache.apply_update(&[injected], 10, 9, Bytes32::new([1; 32]));
    assert_eq!(
        cache.get(injected_id),
        None,
        "an unsubscribed coin must never be cached (nor served on a read)"
    );
}

#[test]
fn update_item_matching_a_subscribed_puzzle_hash_is_accepted() {
    let mut cache = CoinStateCache::new();
    let watched = state(4, Some(20), None);
    let ph = watched.coin.puzzle_hash;
    cache.track_puzzle_hashes(&[ph]);
    cache.apply_update(&[watched], 20, 19, Bytes32::new([2; 32]));
    assert_eq!(
        cache.get(watched.coin.coin_id()),
        Some(watched),
        "a coin discovered under a subscribed puzzle hash is accepted"
    );
}

#[test]
fn authoritative_reorg_lowers_the_peak_and_sweeps() {
    let mut cache = CoinStateCache::new();
    let undone = state(1, Some(95), None);
    let unspent_again = state(2, Some(50), Some(93));
    let swept = state(3, Some(89), None);
    let ids = [
        undone.coin.coin_id(),
        unspent_again.coin.coin_id(),
        swept.coin.coin_id(),
    ];
    cache.track_coins(&ids);
    cache.set_peak(100, hash(0xaa));
    cache.seed(&[undone, unspent_again, swept]);

    cache.apply_update(&[], 88, 88, hash(0xbb));

    assert_eq!(cache.peak(), Some((88, hash(0xbb))));
    assert_eq!(cache.get(ids[0]), None);
    assert_eq!(cache.get(ids[1]), Some(state(2, Some(50), None)));
    assert_eq!(cache.get(ids[2]), None, "created above the new peak");
    assert_eq!(cache.subscribed_coins().len(), 3);
}

#[test]
fn reorg_overwrites_a_cached_coin_in_a_full_cache() {
    let mut cache = CoinStateCache::new();
    let x = state(1, Some(95), None);
    let y = state(2, Some(96), None);
    let spent = [state(3, Some(10), Some(20)), state(4, Some(11), Some(21))];
    cache.track_coins(&[x.coin.coin_id(), y.coin.coin_id()]);
    cache.set_peak(100, hash(0xaa));
    cache.seed(&[x, y, spent[0], spent[1]]);

    let moved = state(1, Some(90), None);
    assert_eq!(cache.apply_update(&[moved], 90, 89, hash(0xbb)), 0);

    assert_eq!(cache.peak(), Some((90, hash(0xbb))));
    assert_eq!(cache.get(x.coin.coin_id()), Some(moved));
    assert_eq!(cache.get(y.coin.coin_id()), None);
    assert_eq!(cache.get(spent[0].coin.coin_id()), Some(spent[0]));
    assert!(cache.is_subscribed_coin(x.coin.coin_id()));
}

#[test]
fn reorg_item_above_the_lowered_peak_leaves_no_old_state() {
    let mut cache = CoinStateCache::new();
    let x = state(1, Some(80), Some(95));
    let y = state(2, Some(96), None);
    cache.track_coins(&[x.coin.coin_id(), y.coin.coin_id()]);
    cache.set_peak(100, hash(0xaa));
    cache.seed(&[x, y]);

    cache.apply_update(&[state(1, Some(91), None)], 90, 89, hash(0xbb));

    assert_eq!(cache.peak(), Some((90, hash(0xbb))));
    assert_eq!(cache.get(x.coin.coin_id()), None);
}

#[test]
fn first_peak_sweeps_after_the_items_of_its_update() {
    let mut cache = CoinStateCache::new();
    let x = state(1, Some(95), None);
    let above = state(2, Some(96), None);
    cache.track_coins(&[x.coin.coin_id()]);
    cache.seed(&[x, state(3, Some(10), Some(20)), above]);

    let moved = state(1, Some(90), None);
    assert_eq!(cache.apply_update(&[moved], 90, 89, hash(0xbb)), 0);

    assert_eq!(cache.get(x.coin.coin_id()), Some(moved));
    assert_eq!(cache.get(above.coin.coin_id()), None);
}

#[test]
fn reorg_with_a_tip_below_its_fork_does_not_lower_the_peak() {
    let mut cache = CoinStateCache::new();
    let undone = state(1, Some(95), None);
    cache.track_coins(&[undone.coin.coin_id()]);
    cache.set_peak(100, hash(0xaa));
    cache.seed(&[undone]);

    cache.apply_update(&[], 80, 90, hash(0xbb));

    assert_eq!(cache.get(undone.coin.coin_id()), None);
    assert_eq!(cache.peak(), Some((100, hash(0xaa))));
}

#[test]
fn equal_peak_height_takes_the_new_hash() {
    let mut cache = CoinStateCache::new();
    cache.set_peak(100, hash(1));
    cache.set_peak(100, hash(2));
    assert_eq!(cache.peak(), Some((100, hash(2))));
}

#[test]
fn coins_above_the_peak_are_refused_when_seeded() {
    let mut cache = CoinStateCache::new();
    cache.set_peak(100, hash(1));
    let above = state(1, Some(101), None);
    let at = state(2, Some(100), None);
    let unknown = state(3, None, None);
    cache.seed(&[above, at, unknown]);
    assert_eq!(cache.get(above.coin.coin_id()), None);
    assert_eq!(cache.get(at.coin.coin_id()), Some(at));
    assert_eq!(cache.get(unknown.coin.coin_id()), Some(unknown));
}

#[test]
fn first_peak_sweeps_coins_above_it() {
    let mut cache = CoinStateCache::new();
    let above = state(1, Some(101), None);
    cache.seed(&[above]);
    assert_eq!(cache.get(above.coin.coin_id()), Some(above));
    cache.set_peak(100, hash(1));
    assert_eq!(cache.get(above.coin.coin_id()), None);
}

#[test]
fn update_item_above_the_new_peak_is_refused() {
    let mut cache = CoinStateCache::new();
    let above = state(1, Some(201), None);
    cache.track_coins(&[above.coin.coin_id()]);
    cache.apply_update(&[above], 200, 199, hash(1));
    assert_eq!(cache.get(above.coin.coin_id()), None);
}

#[test]
fn last_item_about_a_coin_wins() {
    let mut cache = CoinStateCache::new();
    let first = state(1, Some(10), Some(20));
    let last = state(1, Some(10), None);
    cache.track_coins(&[first.coin.coin_id()]);
    cache.apply_update(&[first, last], 30, 29, hash(1));
    assert_eq!(cache.get(first.coin.coin_id()), Some(last));
}

#[test]
fn updates_never_grow_the_cache_past_its_room() {
    let mut cache = CoinStateCache::new();
    let puzzle_hash = hash(7);
    let held = Coin::new(hash(1), puzzle_hash, 0).coin_id();
    cache.track_puzzle_hashes(&[puzzle_hash]);
    let items: Vec<CoinState> = (0..10_001u64)
        .map(|amount| CoinState {
            coin: Coin::new(hash(1), puzzle_hash, amount),
            created_height: Some(5),
            spent_height: None,
        })
        .collect();
    assert_eq!(cache.apply_update(&items, 10, 9, hash(2)), 1);
    assert!(cache.get(held).is_some());
    assert!(cache.get(items[9_999].coin.coin_id()).is_some());
    assert_eq!(cache.get(items[10_000].coin.coin_id()), None);

    // A coin that is cached already is still overwritten.
    let mut spent = items[0];
    spent.spent_height = Some(11);
    cache.apply_update(&[spent], 11, 10, hash(3));
    assert_eq!(cache.get(held), Some(spent));
}

#[test]
fn untracking_keeps_the_cached_state() {
    let mut cache = CoinStateCache::new();
    let s = state(1, Some(10), None);
    let id = s.coin.coin_id();
    cache.track_coins(&[id, id]);
    cache.seed(&[s]);
    assert_eq!(cache.subscribed_coins(), vec![id]);
    cache.untrack_coins(&[id]);
    assert_eq!(cache.get(id), Some(s));
    assert!(cache.subscribed_coins().is_empty());
}

#[test]
fn many_ids_are_told_apart() {
    let mut cache = CoinStateCache::new();
    // Ids of puzzle hashes that share their first eight bytes.
    let hashes: Vec<Bytes32> = (0..50u8)
        .map(|i| {
            let mut bytes = [9u8; 32];
            bytes[31] = i;
            Bytes32::new(bytes)
        })
        .collect();
    cache.track_puzzle_hashes(&hashes);
    cache.track_puzzle_hashes(&hashes);
    assert_eq!(cache.subscribed_puzzle_hashes().len(), 50);
    cache.track_coins(&hashes);
    cache.untrack_coins(&hashes[..25]);
    for (i, id) in hashes.iter().enumerate() {
        assert_eq!(cache.is_subscribed_coin(*id), i >= 25);
    }
}
