//! [`ChiaPeerProvider`]: how a chain source answers reads from the subscription cache and from what
//! a peer returned.
//!
//! Reads answer from the cache first. On a miss the peer is asked, without subscribing, so a read
//! never grows the set of subscriptions. `Ok(None)` and an empty list mean that the peer reported
//! an absence; whatever kept it from answering is an error.
//!
//! Two reads are not supported: a light client holds no lineage of singletons and no timestamps,
//! and says so instead of answering in part.

use dig_chainsource_interface::SingletonLineage;
use vstd::prelude::*;

use crate::bytes::Bytes32;
use crate::cache::{CacheView, CoinStateCache};
use crate::client::DEFAULT_PROVIDER_PRIORITY;
use crate::config::ChiaPeerConfig;
use crate::error::{reported, ChainSourceError, ChainSourceErrorView, ChiaPeerError};
use crate::protocol::{
    coin_id_of, record_from_coin_state, Coin, CoinRecord, CoinSpend, CoinState, CoinStateFilters,
};

verus! {

/// The lineage of a singleton, as the chain-source interface has it.
#[verifier::external_type_specification]
#[verifier::external_body]
pub struct ExSingletonLineage(SingletonLineage);

/// What kind of source a provider is.
#[derive(Debug, Clone, Copy, PartialEq, Eq, Structural)]
pub enum ProviderKind {
    /// A public gateway.
    PublicOracle,
    /// A node that the operator controls.
    LocalNode,
    /// Peers of the DIG network.
    DigPeers,
    /// A source of another kind.
    Custom,
}

/// How a provider describes itself to a registry.
#[derive(Debug, Clone, Copy, PartialEq, Eq)]
pub struct ProviderInfo {
    /// Its name.
    pub id: &'static str,
    /// Its kind.
    pub kind: ProviderKind,
    /// When it is tried; lower is earlier.
    pub priority: i32,
    /// Whether its answers can be checked rather than taken on trust.
    pub trustless: bool,
}

impl ProviderInfo {
    /// How a client with this configuration describes itself.
    pub open spec fn of_client(config: ChiaPeerConfig) -> Self {
        ProviderInfo {
            id: "chia-peer",
            kind: if config.trusted {
                ProviderKind::LocalNode
            } else {
                ProviderKind::Custom
            },
            priority: DEFAULT_PROVIDER_PRIORITY,
            trustless: false,
        }
    }

    /// How a client with this configuration describes itself: as the operator's own node if the
    /// configuration is trusted, as a custom source otherwise. Its answers are taken on trust.
    pub fn for_config(config: &ChiaPeerConfig) -> (info: Self)
        ensures
            info == Self::of_client(*config),
    {
        ProviderInfo {
            id: "chia-peer",
            kind: if config.trusted {
                ProviderKind::LocalNode
            } else {
                ProviderKind::Custom
            },
            priority: DEFAULT_PROVIDER_PRIORITY,
            trustless: false,
        }
    }
}

/// Where a coin's state comes from.
#[derive(Debug, Clone, PartialEq, Eq)]
pub enum CoinLookup {
    /// From the cache: this is it.
    Cached(CoinState),
    /// From the peer, which is to be asked for it.
    Ask(CoinQuery),
}

/// What a peer is to be asked about coins by id.
#[derive(Debug, Clone, PartialEq, Eq)]
pub struct CoinQuery {
    /// The coins asked for.
    pub coin_ids: Vec<Bytes32>,
    /// Whether the peer is to report later changes.
    pub subscribe: bool,
}

/// What a peer is to be asked about coins by puzzle hash.
#[derive(Debug, Clone, PartialEq, Eq)]
pub struct PuzzleHashQuery {
    /// The puzzle hashes asked for.
    pub puzzle_hashes: Vec<Bytes32>,
    /// Which coins to include.
    pub filters: CoinStateFilters,
    /// Whether the peer is to report later changes.
    pub subscribe: bool,
}

/// What a peer is to be asked about a spend.
#[derive(Debug, Clone, Copy, PartialEq, Eq)]
pub struct SpendQuery {
    /// The spent coin.
    pub coin: Coin,
    /// Its id.
    pub coin_id: Bytes32,
    /// The height it was spent at.
    pub height: u32,
}

/// The first of `states` that is about coin `id`.
pub open spec fn first_about(states: Seq<CoinState>, id: Bytes32) -> Option<CoinState>
    decreases states.len(),
{
    if states.len() == 0 {
        None
    } else if states[0].id() == id {
        Some(states[0])
    } else {
        first_about(states.skip(1), id)
    }
}

/// What a read returns for `state` when the peak is at `peak`: its record, confirmed no later than
/// the peak.
pub open spec fn record_at(state: CoinState, peak: Option<u32>) -> CoinRecord {
    match (state.created_height, peak) {
        (Some(created), Some(height)) if created > height => CoinRecord {
            confirmed_height: Some(height),
            ..CoinRecord::of_state(state)
        },
        _ => CoinRecord::of_state(state),
    }
}

/// The read side of a light client.
#[derive(Debug, Clone, Copy, PartialEq, Eq)]
pub struct ChiaPeerProvider {
    /// How it describes itself.
    pub info: ProviderInfo,
}

/// The record of `state`, confirmed no later than the peak at `peak`. A peer can report a coin of a
/// block that the client has not seen the peak of yet; such a coin has no confirmations, not a
/// negative number of them.
fn clamped_record(state: CoinState, peak: Option<u32>) -> (record: CoinRecord)
    ensures
        record == record_at(state, peak),
{
    let mut record: CoinRecord = record_from_coin_state(state);
    if let (Some(confirmed), Some(height)) = (record.confirmed_height, peak) {
        if confirmed > height {
            record.confirmed_height = Some(height);
        }
    }
    record
}

/// The records of what a peer returned, or the report of why it returned nothing.
fn clamped_records(
    fetched: Result<Vec<CoinState>, ChiaPeerError>,
    peak: Option<u32>,
) -> (answer: Result<Vec<CoinRecord>, ChainSourceError>)
    ensures
        match fetched {
            Ok(states) => answer is Ok && answer->Ok_0@ == states@.map_values(
                |state: CoinState| record_at(state, peak),
            ),
            Err(error) => answer is Err && answer->Err_0@ == reported(error@),
        },
{
    let states = match fetched {
        Ok(states) => states,
        Err(error) => return Err(ChainSourceError::from(error)),
    };
    let mut records: Vec<CoinRecord> = Vec::new();
    let mut i: usize = 0;
    while i < states.len()
        invariant
            i <= states@.len(),
            records@.len() == i,
            forall|j: int| 0 <= j < i ==> records@[j] == record_at(states@[j], peak),
        decreases states@.len() - i,
    {
        records.push(clamped_record(states[i], peak));
        i += 1;
    }
    assert(records@ =~= states@.map_values(|state: CoinState| record_at(state, peak)));
    Ok(records)
}

/// The first of `states` that is about coin `id`.
fn find_state(states: &[CoinState], id: Bytes32) -> (found: Option<CoinState>)
    ensures
        found == first_about(states@, id),
{
    let mut i: usize = 0;
    assert(states@.skip(0) =~= states@);
    while i < states.len()
        invariant
            i <= states@.len(),
            first_about(states@, id) == first_about(states@.skip(i as int), id),
        decreases states@.len() - i,
    {
        assert(states@.skip(i as int)[0] == states@[i as int]);
        if states[i].coin.coin_id() == id {
            return Some(states[i]);
        }
        assert(states@.skip(i as int).skip(1) =~= states@.skip(i + 1));
        i += 1;
    }
    None
}

impl ChiaPeerProvider {
    /// A provider that describes itself as `info`.
    pub fn new(info: ProviderInfo) -> (provider: Self)
        ensures
            provider == (ChiaPeerProvider { info }),
    {
        ChiaPeerProvider { info }
    }

    /// How the provider describes itself.
    pub fn provider_info(&self) -> (info: ProviderInfo)
        ensures
            info == self.info,
    {
        self.info
    }

    /// Looks a coin up: in the cache first, and if it is not there the peer is to be asked for that
    /// coin alone, without subscribing.
    pub fn look_up(&self, cache: &CoinStateCache, coin_id: Bytes32) -> (lookup: CoinLookup)
        requires
            cache.wf(),
        ensures
            cache@.coins.contains_key(coin_id) ==> lookup == CoinLookup::Cached(
                cache@.coins[coin_id],
            ),
            !cache@.coins.contains_key(coin_id) ==> lookup is Ask && lookup->Ask_0.coin_ids@
                == seq![coin_id] && !lookup->Ask_0.subscribe,
    {
        match cache.get(coin_id) {
            Some(state) => CoinLookup::Cached(state),
            None => CoinLookup::Ask(CoinQuery { coin_ids: vec![coin_id], subscribe: false }),
        }
    }

    /// The state of `coin_id` among what the peer returned for it.
    pub fn coin_state(
        &self,
        coin_id: Bytes32,
        fetched: Result<Vec<CoinState>, ChiaPeerError>,
    ) -> (answer: Result<Option<CoinState>, ChainSourceError>)
        ensures
            match fetched {
                Ok(states) => answer == Ok::<Option<CoinState>, ChainSourceError>(
                    first_about(states@, coin_id),
                ),
                Err(error) => answer is Err && answer->Err_0@ == reported(error@),
            },
    {
        match fetched {
            Ok(states) => Ok(find_state(states.as_slice(), coin_id)),
            Err(error) => Err(ChainSourceError::from(error)),
        }
    }

    /// The record of a coin whose state was looked up.
    pub fn coin_record(
        &self,
        cache: &CoinStateCache,
        state: Result<Option<CoinState>, ChainSourceError>,
    ) -> (answer: Result<Option<CoinRecord>, ChainSourceError>)
        ensures
            answer == (match state {
                Ok(Some(found)) => Ok::<Option<CoinRecord>, ChainSourceError>(
                    Some(record_at(found, cache@.peak_height())),
                ),
                Ok(None) => Ok(None),
                Err(error) => Err(error),
            }),
    {
        match state {
            Ok(Some(found)) => Ok(Some(clamped_record(found, peak_of(cache)))),
            Ok(None) => Ok(None),
            Err(error) => Err(error),
        }
    }

    /// What a peer is to be asked for the coins that pay to `puzzle_hash`: without subscribing.
    pub fn puzzle_hash_query(&self, puzzle_hash: Bytes32, include_spent: bool) -> (query:
        PuzzleHashQuery)
        ensures
            query.puzzle_hashes@ == seq![puzzle_hash],
            query.filters == (CoinStateFilters {
                include_spent,
                include_unspent: true,
                include_hinted: true,
                min_amount: 0,
            }),
            !query.subscribe,
    {
        PuzzleHashQuery {
            puzzle_hashes: vec![puzzle_hash],
            filters: CoinStateFilters {
                include_spent,
                include_unspent: true,
                include_hinted: true,
                min_amount: 0,
            },
            subscribe: false,
        }
    }

    /// The records of the coins that a peer returned for a puzzle hash.
    pub fn coin_records_by_puzzle_hash(
        &self,
        cache: &CoinStateCache,
        fetched: Result<Vec<CoinState>, ChiaPeerError>,
    ) -> (answer: Result<Vec<CoinRecord>, ChainSourceError>)
        ensures
            match fetched {
                Ok(states) => answer is Ok && answer->Ok_0@ == states@.map_values(
                    |state: CoinState| record_at(state, cache@.peak_height()),
                ),
                Err(error) => answer is Err && answer->Err_0@ == reported(error@),
            },
    {
        clamped_records(fetched, peak_of(cache))
    }

    /// The records of the coins that a peer returned as the children of a coin.
    pub fn coin_records_by_parent(
        &self,
        cache: &CoinStateCache,
        fetched: Result<Vec<CoinState>, ChiaPeerError>,
    ) -> (answer: Result<Vec<CoinRecord>, ChainSourceError>)
        ensures
            match fetched {
                Ok(states) => answer is Ok && answer->Ok_0@ == states@.map_values(
                    |state: CoinState| record_at(state, cache@.peak_height()),
                ),
                Err(error) => answer is Err && answer->Err_0@ == reported(error@),
            },
    {
        clamped_records(fetched, peak_of(cache))
    }

    /// What a peer is to be asked for the spend of a coin whose state was looked up. An unknown or
    /// unspent coin has no spend, and nothing is asked.
    pub fn spend_query(
        &self,
        coin_id: Bytes32,
        state: Result<Option<CoinState>, ChainSourceError>,
    ) -> (query: Result<Option<SpendQuery>, ChainSourceError>)
        ensures
            query == (match state {
                Ok(Some(found)) => match found.spent_height {
                    Some(height) => Ok::<Option<SpendQuery>, ChainSourceError>(
                        Some(SpendQuery { coin: found.coin, coin_id, height }),
                    ),
                    None => Ok(None),
                },
                Ok(None) => Ok(None),
                Err(error) => Err(error),
            }),
    {
        match state {
            Ok(Some(found)) => match found.spent_height {
                Some(height) => Ok(Some(SpendQuery { coin: found.coin, coin_id, height })),
                None => Ok(None),
            },
            Ok(None) => Ok(None),
            Err(error) => Err(error),
        }
    }

    /// The spend that a peer revealed: of the coin that was looked up.
    pub fn coin_spend(
        &self,
        query: SpendQuery,
        revealed: Result<(Vec<u8>, Vec<u8>), ChiaPeerError>,
    ) -> (answer: Result<Option<CoinSpend>, ChainSourceError>)
        ensures
            match revealed {
                Ok((puzzle_reveal, solution)) => answer == Ok::<
                    Option<CoinSpend>,
                    ChainSourceError,
                >(Some(CoinSpend { coin: query.coin, puzzle_reveal, solution })),
                Err(error) => answer is Err && answer->Err_0@ == reported(error@),
            },
    {
        match revealed {
            Ok((puzzle_reveal, solution)) => Ok(
                Some(CoinSpend { coin: query.coin, puzzle_reveal, solution }),
            ),
            Err(error) => Err(ChainSourceError::from(error)),
        }
    }

    /// The lineage of a singleton: not supported, because a light client would know it in part only.
    pub fn resolve_singleton_lineage(&self, launcher_id: Bytes32) -> (answer: Result<
        Option<SingletonLineage>,
        ChainSourceError,
    >)
        ensures
            answer is Err,
            answer->Err_0@ == ChainSourceErrorView::Unsupported(
                "singleton lineage resolution is not provided by the light-client source; use an aggregating chain source"@,
            ),
    {
        Err(
            ChainSourceError::Unsupported(
                "singleton lineage resolution is not provided by the light-client source; use an aggregating chain source",
            ),
        )
    }

    /// The height of the peak, if one is known.
    pub fn peak_height(&self, cache: &CoinStateCache) -> (answer: Result<
        Option<u32>,
        ChainSourceError,
    >)
        ensures
            answer == Ok::<Option<u32>, ChainSourceError>(cache@.peak_height()),
    {
        Ok(peak_of(cache))
    }

    /// The timestamp of a block: not supported, because a light client keeps none.
    pub fn block_timestamp(&self, height: u32) -> (answer: Result<Option<u64>, ChainSourceError>)
        ensures
            answer is Err,
            answer->Err_0@ == ChainSourceErrorView::Unsupported(
                "block timestamps are not indexed by the light-client source"@,
            ),
    {
        Err(
            ChainSourceError::Unsupported(
                "block timestamps are not indexed by the light-client source",
            ),
        )
    }
}

/// The height of the peak, if one is known.
fn peak_of(cache: &CoinStateCache) -> (height: Option<u32>)
    ensures
        height == cache@.peak_height(),
{
    match cache.peak() {
        Some((height, _)) => Some(height),
        None => None,
    }
}

/// Whatever a peer reports, a coin is never confirmed above the known peak, so counting its
/// confirmations does not underflow; it keeps its coin and its spent height; and without a peak the
/// height is as reported.
pub proof fn law_confirmed_height_is_at_most_the_peak(state: CoinState, peak: Option<u32>)
    ensures
        record_at(state, peak).coin == state.coin,
        record_at(state, peak).spent_height == state.spent_height,
        record_at(state, peak).confirmed_height is Some <==> state.created_height is Some,
        state.created_height is Some && peak is Some ==> record_at(state, peak).confirmed_height
            == Some(
            if state.created_height->0 <= peak->0 {
                state.created_height->0
            } else {
                peak->0
            },
        ),
        peak is None ==> record_at(state, peak).confirmed_height == state.created_height,
{
}

/// A state that is served from the cache is reported as it is: the clamp never touches it.
pub proof fn law_cached_states_are_reported_as_cached(cache: CacheView, id: Bytes32)
    requires
        cache.valid(),
        cache.coins.contains_key(id),
    ensures
        record_at(cache.coins[id], cache.peak_height()) == CoinRecord::of_state(cache.coins[id]),
{
}

/// What is found among returned states is one of them and about the coin asked for; and if nothing
/// is found, none of them is.
pub proof fn law_only_the_coin_asked_for_is_found(states: Seq<CoinState>, id: Bytes32)
    ensures
        first_about(states, id) matches Some(state) ==> states.contains(state) && state.id() == id,
        first_about(states, id) is None <==> forall|i: int|
            0 <= i < states.len() ==> (#[trigger] states[i]).id() != id,
    decreases states.len(),
{
    if states.len() > 0 {
        if states[0].id() != id {
            let rest = states.skip(1);
            law_only_the_coin_asked_for_is_found(rest, id);
            assert(forall|i: int| 0 <= i < rest.len() ==> rest[i] == #[trigger] states[i + 1]);
            if first_about(rest, id) is None {
                assert forall|i: int| 0 <= i < states.len() implies (#[trigger] states[i]).id()
                    != id by {
                    if i > 0 {
                        assert(rest[i - 1].id() != id);
                    }
                }
            } else {
                let found = first_about(rest, id)->0;
                let k = choose|k: int| 0 <= k < rest.len() && rest[k] == found;
                assert(states[k + 1] == found);
            }
        }
    }
}

/// What a read finds among returned states is the first one about the coin asked for.
pub proof fn law_the_first_state_about_the_coin_is_found(
    states: Seq<CoinState>,
    id: Bytes32,
    i: int,
)
    requires
        0 <= i < states.len(),
        coin_id_of(states[i].coin) == id,
        forall|j: int| 0 <= j < i ==> coin_id_of((#[trigger] states[j]).coin) != id,
    ensures
        first_about(states, id) == Some(states[i]),
    decreases i,
{
    if i > 0 {
        let rest = states.skip(1);
        assert(coin_id_of(states[0].coin) != id);
        assert forall|j: int| 0 <= j < i - 1 implies coin_id_of((#[trigger] rest[j]).coin) != id by {
            assert(rest[j] == states[j + 1]);
        }
        assert(rest[i - 1] == states[i]);
        law_the_first_state_about_the_coin_is_found(rest, id, i - 1);
    }
}

/// A read finds nothing where no returned state is about the coin asked for.
pub proof fn law_a_coin_without_a_state_is_not_found(states: Seq<CoinState>, id: Bytes32)
    requires
        forall|j: int| 0 <= j < states.len() ==> coin_id_of((#[trigger] states[j]).coin) != id,
    ensures
        first_about(states, id) is None,
    decreases states.len(),
{
    if states.len() > 0 {
        let rest = states.skip(1);
        assert(coin_id_of(states[0].coin) != id);
        assert forall|j: int| 0 <= j < rest.len() implies coin_id_of((#[trigger] rest[j]).coin)
            != id by {
            assert(rest[j] == states[j + 1]);
        }
        law_a_coin_without_a_state_is_not_found(rest, id);
    }
}

/// What a record says: the coin and the height it was spent at, as they are; the height it was
/// created at, or the peak's if that is lower; and neither a timestamp nor a reward.
pub proof fn law_what_a_record_says(state: CoinState, peak: Option<u32>)
    ensures
        record_at(state, peak).coin == state.coin,
        record_at(state, peak).spent_height == state.spent_height,
        record_at(state, peak).timestamp is None,
        !record_at(state, peak).coinbase,
        state.created_height is None ==> record_at(state, peak).confirmed_height is None,
        peak is None ==> record_at(state, peak).confirmed_height == state.created_height,
        state.created_height is Some && peak is Some && state.created_height->0 <= peak->0
            ==> record_at(state, peak).confirmed_height == state.created_height,
        state.created_height is Some && peak is Some && state.created_height->0 > peak->0
            ==> record_at(state, peak).confirmed_height == peak,
{
}

/// A client describes itself as `chia-peer`, as the operator's own node exactly if it is trusted and
/// as a custom source otherwise, with priority 20, and never as trustless.
pub proof fn law_how_a_client_describes_itself(config: ChiaPeerConfig)
    ensures
        ProviderInfo::of_client(config).id@ == "chia-peer"@,
        config.trusted ==> ProviderInfo::of_client(config).kind is LocalNode,
        !config.trusted ==> ProviderInfo::of_client(config).kind is Custom,
        ProviderInfo::of_client(config).priority == 20,
        !ProviderInfo::of_client(config).trustless,
{
}

} // verus!
