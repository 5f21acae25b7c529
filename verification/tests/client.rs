use chia::traits::Streamable;
use chia_peer::cache::CoinStateCache;
use chia_peer::client::{
    apply_coin_state_update, handle_message, MessageKind, Rearm, RearmAction, RearmEvent, Received,
};
use chia_peer::protocol::{Coin, CoinState, CoinStateFilters, CoinStateUpdate};
use chia_peer::{
    Bytes32, ChiaLightClient, ChiaNetwork, ChiaPeerConfig, ChiaPeerError, ProviderKind, SocketAddr,
    SubmitOutcome, DEFAULT_PROVIDER_PRIORITY,
};

fn coin(seed: u8) -> Coin {
    Coin::new(Bytes32::new([seed; 32]), Bytes32::new([seed ^ 2; 32]), 1)
}

fn state(seed: u8, created: Option<u32>, spent: Option<u32>) -> CoinState {
    CoinState {
        coin: coin(seed),
        created_height: created,
        spent_height: spent,
    }
}

fn theirs(state: CoinState) -> chia_protocol::CoinState {
    chia_protocol::CoinState::new(
        chia_protocol::Coin::new(
            state.coin.parent_coin_info.to_bytes().into(),
            state.coin.puzzle_hash.to_bytes().into(),
            state.coin.amount,
        ),
        state.spent_height,
        state.created_height,
    )
}

fn client() -> ChiaLightClient<u8> {
    ChiaLightClient::from_connection(ChiaPeerConfig::testnet11(), 1)
}

#[test]
fn submit_outcome_maps_ack_status() {
    assert_eq!(SubmitOutcome::from_status(1), SubmitOutcome::Accepted);
    assert_eq!(SubmitOutcome::from_status(2), SubmitOutcome::Pending);
    assert_eq!(SubmitOutcome::from_status(3), SubmitOutcome::Failed);
    assert_eq!(SubmitOutcome::from_status(9), SubmitOutcome::Unknown(9));
    assert!(SubmitOutcome::Accepted.is_accepted());
    assert!(SubmitOutcome::Pending.is_accepted());
    assert!(!SubmitOutcome::Failed.is_accepted());
}

#[test]
fn unknown_statuses_are_not_accepted() {
    assert!(!SubmitOutcome::Unknown(1).is_accepted());
    assert_eq!(SubmitOutcome::from_status(0), SubmitOutcome::Unknown(0));
    assert_eq!(
        ChiaLightClient::<u8>::submit_spend(Ok(1)),
        Ok(SubmitOutcome::Accepted)
    );
    assert_eq!(
        ChiaLightClient::<u8>::submit_spend(Err(ChiaPeerError::Timeout)),
        Err(ChiaPeerError::Timeout)
    );
}

#[test]
fn drive_loop_update_advances_cache_and_drops_spent_tracking() {
    let mut cache = CoinStateCache::new();
    let spent = coin(1);
    let spent_id = spent.coin_id();
    cache.track_coins(&[spent_id]);

    let update = CoinStateUpdate {
        height: 200,
        fork_height: 199,
        peak_hash: Bytes32::new([0xab; 32]),
        items: vec![CoinState {
            coin: spent,
            created_height: Some(100),
            spent_height: Some(150),
        }],
    };
    apply_coin_state_update(&mut cache, &update);

    assert_eq!(cache.peak(), Some((200, Bytes32::new([0xab; 32]))));
    assert!(
        cache.get(spent_id).is_some(),
        "spent coin state is retained for reads"
    );
    assert!(
        !cache.is_subscribed_coin(spent_id),
        "spent coin is untracked"
    );
}

#[test]
fn new_peak_message_advances_the_peak() {
    let mut cache = CoinStateCache::new();
    let push = |height| {
        chia_protocol::NewPeakWallet::new([0xcd; 32].into(), height, 77, 1)
            .to_bytes()
            .unwrap()
    };
    handle_message(&mut cache, MessageKind::NewPeakWallet, &push(5_000_000));
    assert_eq!(cache.peak(), Some((5_000_000, Bytes32::new([0xcd; 32]))));
    handle_message(&mut cache, MessageKind::NewPeakWallet, &push(4_999_999));
    assert_eq!(cache.peak(), Some((5_000_000, Bytes32::new([0xcd; 32]))));
}

#[test]
fn coin_state_message_is_decoded_and_applied() {
    let mut cache = CoinStateCache::new();
    let kept = state(1, Some(10), None);
    let spent = state(2, Some(11), Some(19));
    cache.track_coins(&[kept.coin.coin_id(), spent.coin.coin_id()]);
    let data = chia_protocol::CoinStateUpdate::new(
        20,
        18,
        [0xef; 32].into(),
        vec![theirs(kept), theirs(spent), theirs(state(3, Some(12), None))],
    )
    .to_bytes()
    .unwrap();

    handle_message(&mut cache, MessageKind::Other, &data);
    assert_eq!(cache.peak(), None);

    handle_message(&mut cache, MessageKind::CoinStateUpdate, &data);
    assert_eq!(cache.peak(), Some((20, Bytes32::new([0xef; 32]))));
    assert_eq!(cache.get(kept.coin.coin_id()), Some(kept));
    assert_eq!(cache.get(spent.coin.coin_id()), Some(spent));
    assert_eq!(cache.get(coin(3).coin_id()), None);
    assert_eq!(cache.subscribed_coins(), vec![kept.coin.coin_id()]);
}

#[test]
fn undecodable_messages_are_dropped() {
    let mut cache = CoinStateCache::new();
    cache.set_peak(10, Bytes32::new([1; 32]));
    for kind in [MessageKind::NewPeakWallet, MessageKind::CoinStateUpdate] {
        for data in [vec![], vec![0xff; 55], vec![0xff; 57], vec![0xff; 200]] {
            handle_message(&mut cache, kind, &data);
        }
    }
    // A whole update with a byte behind it, or cut short by one, is none.
    let whole = chia_protocol::CoinStateUpdate::new(20, 18, [0xef; 32].into(), vec![])
        .to_bytes()
        .unwrap();
    let mut longer = whole.clone();
    longer.push(0);
    handle_message(&mut cache, MessageKind::CoinStateUpdate, &longer);
    handle_message(&mut cache, MessageKind::CoinStateUpdate, &whole[..whole.len() - 1]);
    assert_eq!(cache.peak(), Some((10, Bytes32::new([1; 32]))));
    handle_message(&mut cache, MessageKind::CoinStateUpdate, &whole);
    assert_eq!(cache.peak(), Some((20, Bytes32::new([0xef; 32]))));
}

#[test]
fn a_failed_dial_is_no_client() {
    assert!(matches!(
        ChiaLightClient::<u8>::connect(
            ChiaPeerConfig::mainnet(),
            Err(ChiaPeerError::PeerDiscoveryFailed)
        ),
        Err(ChiaPeerError::PeerDiscoveryFailed)
    ));
    let connected = ChiaLightClient::connect(ChiaPeerConfig::mainnet(), Ok(4u8))
        .unwrap_or_else(|e| panic!("{e:?}"));
    assert_eq!(connected.fetcher.peer(), Ok(4));
    assert_eq!(
        connected.fetcher.genesis_challenge,
        ChiaNetwork::Mainnet.genesis_challenge()
    );
    assert_eq!(connected.peak(), None);
}

#[test]
fn subscribing_tracks_and_seeds() {
    let mut client = client();
    let s = state(1, Some(10), None);
    let id = s.coin.coin_id();
    let (peer, request) = client.request_coins(vec![id]).unwrap();
    assert_eq!(peer, 1);
    assert!(request.subscribe);
    assert_eq!(request.coin_ids, vec![id]);
    assert_eq!(client.subscribe_coins(&[id], Ok(vec![s])), Ok(vec![s]));
    assert!(client.cache.is_subscribed_coin(id));
    assert_eq!(client.cache.get(id), Some(s));

    let ph = Bytes32::new([7; 32]);
    assert!(client.request_puzzle_hashes().is_ok());
    assert_eq!(client.subscribe_puzzle_hashes(&[ph], Ok(vec![])), Ok(()));
    assert_eq!(client.cache.subscribed_puzzle_hashes(), vec![ph]);

    assert_eq!(client.unsubscribe_coins(&[id], Ok(())), Ok(()));
    assert!(!client.cache.is_subscribed_coin(id));
    assert_eq!(client.cache.get(id), Some(s));
}

#[test]
fn a_failed_request_changes_nothing() {
    let mut client = client();
    let id = coin(1).coin_id();
    assert_eq!(
        client.subscribe_coins(&[id], Err(ChiaPeerError::Timeout)),
        Err(ChiaPeerError::Timeout)
    );
    assert!(!client.cache.is_subscribed_coin(id));
    assert_eq!(
        client.subscribe_puzzle_hashes(&[id], Err(ChiaPeerError::NotConnected)),
        Err(ChiaPeerError::NotConnected)
    );
    assert!(client.cache.subscribed_puzzle_hashes().is_empty());
    client.subscribe_coins(&[id], Ok(vec![])).unwrap();
    assert_eq!(
        client.unsubscribe_coins(&[id], Err(ChiaPeerError::Timeout)),
        Err(ChiaPeerError::Timeout)
    );
    assert!(client.cache.is_subscribed_coin(id));
    assert!(client.reconnect(Err(ChiaPeerError::PeerDiscoveryFailed)).is_err());
    assert_eq!(client.fetcher.peer(), Ok(1));
}

#[test]
fn reconnecting_swaps_the_peer_and_rearms() {
    let mut client = client();
    let rearm = client.reconnect(Ok(2)).unwrap();
    assert_eq!(client.fetcher.peer(), Ok(2));
    assert_eq!(rearm.coins, None);
    assert_eq!(rearm.puzzle_hashes, None);

    let id = coin(1).coin_id();
    let ph = Bytes32::new([7; 32]);
    client.subscribe_coins(&[id], Ok(vec![])).unwrap();
    client.subscribe_puzzle_hashes(&[ph], Ok(vec![])).unwrap();
    let rearm = client.reconnect(Ok(3)).unwrap();
    assert_eq!(rearm.coins, Some(vec![id]));
    assert_eq!(
        rearm.puzzle_hashes,
        Some((
            vec![ph],
            CoinStateFilters {
                include_spent: true,
                include_unspent: true,
                include_hinted: true,
                min_amount: 0,
            }
        ))
    );
    // Re-arming leaves the subscriptions as they were.
    client.subscribe_coins(&[id], Ok(vec![])).unwrap();
    client.subscribe_puzzle_hashes(&[ph], Ok(vec![])).unwrap();
    assert_eq!(client.cache.subscribed_coins(), vec![id]);
    assert_eq!(client.cache.subscribed_puzzle_hashes(), vec![ph]);
}

#[test]
fn provider_info_reflects_trusted_configuration() {
    let endpoint = SocketAddr::v4([127, 0, 0, 1], 8444);
    let config = ChiaPeerConfig::testnet11().with_trusted_endpoint(endpoint);
    let client = ChiaLightClient::from_connection(config, 1u8);
    assert_eq!(client.provider_info().kind, ProviderKind::LocalNode);
}

#[test]
fn untrusted_client_is_a_custom_provider() {
    let info = client().provider_info();
    assert_eq!(info.id, "chia-peer");
    assert_eq!(info.kind, ProviderKind::Custom);
    assert_eq!(info.priority, DEFAULT_PROVIDER_PRIORITY);
    assert_eq!(DEFAULT_PROVIDER_PRIORITY, 20);
    assert!(!info.trustless);
    assert_eq!(client().as_chain_source_provider().provider_info(), info);
}

#[test]
fn rearming_issues_coins_then_puzzle_hashes() {
    let filters = CoinStateFilters {
        include_spent: true,
        include_unspent: true,
        include_hinted: true,
        min_amount: 0,
    };
    let coins = vec![coin(1).coin_id()];
    let hashes = vec![Bytes32::new([7; 32])];
    let rearm = || Rearm {
        coins: Some(coins.clone()),
        puzzle_hashes: Some((hashes.clone(), filters)),
    };

    let (left, action) = rearm().step(RearmEvent::Started);
    assert_eq!(action, RearmAction::SubscribeCoins(coins.clone()));
    let (left, action) = left.step(RearmEvent::CoinsAnswered(Ok(())));
    assert_eq!(action, RearmAction::SubscribePuzzleHashes(hashes.clone(), filters));
    let (_, action) = left.step(RearmEvent::PuzzleHashesAnswered(Err(ChiaPeerError::Timeout)));
    assert_eq!(action, RearmAction::Finish(Err(ChiaPeerError::Timeout)));

    // A failed coin subscription ends it, without the puzzle hashes.
    let (left, _) = rearm().step(RearmEvent::Started);
    let (left, action) = left.step(RearmEvent::CoinsAnswered(Err(ChiaPeerError::NotConnected)));
    assert_eq!(action, RearmAction::Finish(Err(ChiaPeerError::NotConnected)));
    assert_eq!(left.puzzle_hashes, None);
}

#[test]
fn rearming_skips_what_is_not_subscribed() {
    let nothing = Rearm { coins: None, puzzle_hashes: None };
    let (_, action) = nothing.step(RearmEvent::Started);
    assert_eq!(action, RearmAction::Finish(Ok(())));

    let coins_only = Rearm { coins: Some(vec![coin(1).coin_id()]), puzzle_hashes: None };
    let (left, _) = coins_only.step(RearmEvent::Started);
    let (_, action) = left.step(RearmEvent::CoinsAnswered(Ok(())));
    assert_eq!(action, RearmAction::Finish(Ok(())));
}

#[test]
fn messages_tell_what_became_of_them() {
    let mut cache = CoinStateCache::new();
    let peak = chia_protocol::NewPeakWallet::new([1; 32].into(), 5, 0, 0)
        .to_bytes()
        .unwrap();
    assert_eq!(
        handle_message(&mut cache, MessageKind::NewPeakWallet, &peak),
        Received::Peak
    );
    assert_eq!(
        handle_message(&mut cache, MessageKind::NewPeakWallet, &peak[1..]),
        Received::Undecodable
    );
    assert_eq!(
        handle_message(&mut cache, MessageKind::Other, &peak),
        Received::Ignored
    );

    // Room for one coin, taken by an unsubscribed one: the subscribed coin overflows.
    let subscribed = state(1, Some(1), None);
    cache.seed(&[state(9, Some(1), None)]);
    cache.track_coins(&[subscribed.coin.coin_id()]);
    let update = chia_protocol::CoinStateUpdate::new(
        6,
        5,
        [2; 32].into(),
        vec![theirs(subscribed), theirs(state(3, Some(2), None))],
    )
    .to_bytes()
    .unwrap();
    assert_eq!(
        handle_message(&mut cache, MessageKind::CoinStateUpdate, &update),
        Received::Update { overflow: 1 }
    );
    assert_eq!(
        handle_message(&mut cache, MessageKind::CoinStateUpdate, &update[1..]),
        Received::Undecodable
    );
}
