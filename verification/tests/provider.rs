use chia_peer::cache::CoinStateCache;
use chia_peer::protocol::{Coin, CoinRecord, CoinSpend, CoinState, CoinStateFilters};
use chia_peer::provider::{CoinLookup, SpendQuery};
use chia_peer::{
    Bytes32, ChainSourceError, ChiaPeerError, ChiaPeerProvider, ProviderInfo, ProviderKind,
};

/// A scripted peer: each read returns the configured states or a forced error.
#[derive(Default)]
struct ScriptedPeer {
    coin_states: Vec<CoinState>,
    fail: Option<ChiaPeerError>,
    children: Vec<CoinState>,
    puzzle_states: Vec<CoinState>,
    reveal: (Vec<u8>, Vec<u8>),
}

impl ScriptedPeer {
    fn answer<T>(&self, value: T) -> Result<T, ChiaPeerError> {
        match &self.fail {
            Some(error) => Err(error.clone()),
            None => Ok(value),
        }
    }
}

fn info() -> ProviderInfo {
    ProviderInfo {
        id: "chia-peer-test",
        kind: ProviderKind::Custom,
        priority: 20,
        trustless: false,
    }
}

fn coin(seed: u8) -> Coin {
    Coin::new(Bytes32::new([seed; 32]), Bytes32::new([seed ^ 1; 32]), 1)
}

fn state(seed: u8, created: Option<u32>, spent: Option<u32>) -> CoinState {
    CoinState {
        coin: coin(seed),
        created_height: created,
        spent_height: spent,
    }
}

fn coin_state(
    peer: &ScriptedPeer,
    cache: &CoinStateCache,
    id: Bytes32,
) -> Result<Option<CoinState>, ChainSourceError> {
    let provider = ChiaPeerProvider::new(info());
    match provider.look_up(cache, id) {
        CoinLookup::Cached(state) => Ok(Some(state)),
        CoinLookup::Ask(query) => {
            assert_eq!(query.coin_ids, vec![id]);
            assert!(!query.subscribe, "a read must not subscribe");
            provider.coin_state(id, peer.answer(peer.coin_states.clone()))
        }
    }
}

fn coin_record(
    peer: &ScriptedPeer,
    cache: &CoinStateCache,
    id: Bytes32,
) -> Result<Option<CoinRecord>, ChainSourceError> {
    ChiaPeerProvider::new(info()).coin_record(cache, coin_state(peer, cache, id))
}

fn coin_spend(
    peer: &ScriptedPeer,
    cache: &CoinStateCache,
    id: Bytes32,
) -> Result<Option<CoinSpend>, ChainSourceError> {
    let provider = ChiaPeerProvider::new(info());
    match provider.spend_query(id, coin_state(peer, cache, id)) {
        Ok(Some(query)) => provider.coin_spend(query, peer.answer(peer.reveal.clone())),
        Ok(None) => Ok(None),
        Err(error) => Err(error),
    }
}

#[test]
fn coin_record_returns_some_for_a_known_coin() {
    let c = coin(7);
    let id = c.coin_id();
    let peer = ScriptedPeer {
        coin_states: vec![CoinState {
            coin: c,
            created_height: Some(100),
            spent_height: None,
        }],
        ..Default::default()
    };
    let record = coin_record(&peer, &CoinStateCache::new(), id).expect("read ok");
    assert!(record.is_some());
    assert_eq!(record.unwrap().confirmed_height, Some(100));
}

#[test]
fn coin_record_returns_none_for_provable_absence() {
    let id = coin(9).coin_id();
    let record = coin_record(&ScriptedPeer::default(), &CoinStateCache::new(), id).expect("read ok");
    assert_eq!(record, None);
}

#[test]
fn transport_failure_is_err_never_false_absence() {
    let peer = ScriptedPeer {
        fail: Some(ChiaPeerError::Transport("socket reset".into())),
        ..Default::default()
    };
    let id = coin(3).coin_id();
    let result = coin_record(&peer, &CoinStateCache::new(), id);
    assert!(
        matches!(result, Err(ChainSourceError::Transport(_))),
        "a transport failure MUST be Err, never Ok(None): {result:?}"
    );
}

#[test]
fn coin_spend_of_unspent_coin_is_none() {
    let c = coin(4);
    let id = c.coin_id();
    let peer = ScriptedPeer {
        coin_states: vec![CoinState {
            coin: c,
            created_height: Some(10),
            spent_height: None,
        }],
        ..Default::default()
    };
    assert_eq!(coin_spend(&peer, &CoinStateCache::new(), id).unwrap(), None);
}

#[test]
fn coin_spend_of_spent_coin_assembles_from_real_coin() {
    let c = coin(5);
    let id = c.coin_id();
    let peer = ScriptedPeer {
        coin_states: vec![CoinState {
            coin: c,
            created_height: Some(10),
            spent_height: Some(20),
        }],
        reveal: (vec![1u8], vec![2u8]),
        ..Default::default()
    };
    let spend = coin_spend(&peer, &CoinStateCache::new(), id)
        .unwrap()
        .expect("spend");
    assert_eq!(spend.coin, c);
    assert_eq!(spend.puzzle_reveal, vec![1u8]);
    assert_eq!(spend.solution, vec![2u8]);
}

#[test]
fn records_by_puzzle_hash_and_parent_map_states() {
    let peer = ScriptedPeer {
        puzzle_states: vec![CoinState {
            coin: coin(1),
            created_height: Some(1),
            spent_height: None,
        }],
        children: vec![CoinState {
            coin: coin(2),
            created_height: Some(2),
            spent_height: None,
        }],
        ..Default::default()
    };
    let provider = ChiaPeerProvider::new(info());
    let cache = CoinStateCache::new();
    let ph = Bytes32::new([8; 32]);
    let query = provider.puzzle_hash_query(ph, true);
    assert_eq!(query.puzzle_hashes, vec![ph]);
    let by_hash = provider
        .coin_records_by_puzzle_hash(&cache, peer.answer(peer.puzzle_states.clone()))
        .unwrap();
    assert_eq!(by_hash.len(), 1);
    assert_eq!(by_hash[0].coin, coin(1));
    let by_parent = provider
        .coin_records_by_parent(&cache, peer.answer(peer.children.clone()))
        .unwrap();
    assert_eq!(by_parent.len(), 1);
    assert_eq!(by_parent[0].coin, coin(2));
}

#[test]
fn lineage_and_timestamp_are_unsupported_not_false_absence() {
    let provider = ChiaPeerProvider::new(info());
    assert!(matches!(
        provider.resolve_singleton_lineage(Bytes32::new([1; 32])),
        Err(ChainSourceError::Unsupported(_))
    ));
    assert!(matches!(
        provider.block_timestamp(1),
        Err(ChainSourceError::Unsupported(_))
    ));
    assert!(matches!(
        provider.resolve_singleton_lineage(Bytes32::new([1; 32])),
        Err(ChainSourceError::Unsupported(what)) if what
            == "singleton lineage resolution is not provided by the light-client source; \
                use an aggregating chain source"
    ));
    assert_eq!(
        provider.block_timestamp(1),
        Err(ChainSourceError::Unsupported(
            "block timestamps are not indexed by the light-client source"
        ))
    );
}

#[test]
fn provider_info_is_reported() {
    let provider = ChiaPeerProvider::new(info());
    assert_eq!(provider.provider_info().priority, 20);
    assert_eq!(provider.peak_height(&CoinStateCache::new()).unwrap(), None);
}

#[test]
fn every_record_field_is_carried_over() {
    let peer = ScriptedPeer {
        coin_states: vec![state(6, Some(10), Some(20))],
        ..Default::default()
    };
    assert_eq!(
        coin_record(&peer, &CoinStateCache::new(), coin(6).coin_id()),
        Ok(Some(CoinRecord {
            coin: coin(6),
            confirmed_height: Some(10),
            spent_height: Some(20),
            timestamp: None,
            coinbase: false,
        }))
    );
}

#[test]
fn cached_state_wins_over_the_peer() {
    let mut cache = CoinStateCache::new();
    cache.seed(&[state(1, Some(5), None)]);
    let peer = ScriptedPeer {
        fail: Some(ChiaPeerError::Timeout),
        ..Default::default()
    };
    let record = coin_record(&peer, &cache, coin(1).coin_id()).unwrap().unwrap();
    assert_eq!(record.confirmed_height, Some(5));
    // The read left the subscriptions alone.
    assert!(cache.subscribed_coins().is_empty());
}

#[test]
fn confirmed_height_is_clamped_to_the_peak_on_every_read() {
    let mut cache = CoinStateCache::new();
    cache.set_peak(100, Bytes32::new([1; 32]));
    let provider = ChiaPeerProvider::new(info());
    let fetched = vec![state(1, Some(101), None), state(2, Some(99), None)];
    let peer = ScriptedPeer {
        coin_states: fetched.clone(),
        ..Default::default()
    };
    let above = coin_record(&peer, &cache, coin(1).coin_id()).unwrap().unwrap();
    assert_eq!(above.confirmed_height, Some(100), "present, with no confirmations");
    let below = coin_record(&peer, &cache, coin(2).coin_id()).unwrap().unwrap();
    assert_eq!(below.confirmed_height, Some(99));
    for records in [
        provider.coin_records_by_puzzle_hash(&cache, Ok(fetched.clone())),
        provider.coin_records_by_parent(&cache, Ok(fetched.clone())),
    ] {
        let heights: Vec<Option<u32>> =
            records.unwrap().iter().map(|r| r.confirmed_height).collect();
        assert_eq!(heights, vec![Some(100), Some(99)]);
    }
    assert_eq!(provider.peak_height(&cache), Ok(Some(100)), "the peak is not inflated");
}

#[test]
fn heights_are_as_reported_without_a_peak() {
    let provider = ChiaPeerProvider::new(info());
    let records = provider
        .coin_records_by_parent(&CoinStateCache::new(), Ok(vec![state(1, Some(u32::MAX), None)]))
        .unwrap();
    assert_eq!(records[0].confirmed_height, Some(u32::MAX));
}

#[test]
fn a_state_about_another_coin_is_an_absence() {
    let provider = ChiaPeerProvider::new(info());
    let fetched = vec![state(1, Some(1), None), state(2, Some(2), None), state(2, Some(3), None)];
    assert_eq!(
        provider.coin_state(coin(9).coin_id(), Ok(fetched.clone())),
        Ok(None)
    );
    assert_eq!(
        provider.coin_state(coin(2).coin_id(), Ok(fetched)),
        Ok(Some(state(2, Some(2), None))),
        "the first state about the coin"
    );
}

#[test]
fn every_peer_error_is_an_error_on_every_read() {
    let provider = ChiaPeerProvider::new(info());
    let cache = CoinStateCache::new();
    let query = SpendQuery {
        coin: coin(1),
        coin_id: coin(1).coin_id(),
        height: 5,
    };
    for error in [
        ChiaPeerError::Transport("x".into()),
        ChiaPeerError::Rejected("x".into()),
        ChiaPeerError::Malformed("x".into()),
        ChiaPeerError::Timeout,
        ChiaPeerError::PeerDiscoveryFailed,
        ChiaPeerError::NotConnected,
        ChiaPeerError::Tls("x".into()),
    ] {
        let mapped = ChainSourceError::from(error.clone());
        assert_eq!(
            provider.coin_state(coin(1).coin_id(), Err(error.clone())),
            Err(mapped.clone())
        );
        assert_eq!(
            provider.coin_records_by_puzzle_hash(&cache, Err(error.clone())),
            Err(mapped.clone())
        );
        assert_eq!(
            provider.coin_records_by_parent(&cache, Err(error.clone())),
            Err(mapped.clone())
        );
        assert_eq!(provider.coin_spend(query, Err(error)), Err(mapped.clone()));
        assert_eq!(
            provider.spend_query(coin(1).coin_id(), Err(mapped.clone())),
            Err(mapped.clone())
        );
        assert_eq!(provider.coin_record(&cache, Err(mapped.clone())), Err(mapped));
    }
}

#[test]
fn puzzle_hash_reads_filter_spent_coins_on_request() {
    let provider = ChiaPeerProvider::new(info());
    let query = provider.puzzle_hash_query(Bytes32::new([8; 32]), false);
    assert_eq!(
        query.filters,
        CoinStateFilters {
            include_spent: false,
            include_unspent: true,
            include_hinted: true,
            min_amount: 0,
        }
    );
    assert!(!query.subscribe);
}

#[test]
fn spends_are_asked_for_at_their_height() {
    let provider = ChiaPeerProvider::new(info());
    let id = coin(5).coin_id();
    assert_eq!(
        provider.spend_query(id, Ok(Some(state(5, Some(1), Some(20))))),
        Ok(Some(SpendQuery {
            coin: coin(5),
            coin_id: id,
            height: 20,
        }))
    );
    assert_eq!(provider.spend_query(id, Ok(None)), Ok(None));
}
