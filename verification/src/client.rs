//! [`ChiaLightClient`]: the state of a light client (its configuration, its peer, its subscription
//! cache) and how every reply and every pushed message changes it.

use vstd::prelude::*;

use crate::bytes::Bytes32;
use crate::cache::{CacheView, CoinStateCache};
use crate::cache_effects::law_a_peak_report_becomes_the_peak_unless_it_is_lower;
use crate::cache_laws::{
    law_seed_keeps_subscriptions_and_peak, law_seed_then_get, law_update_keeps_subscriptions,
};
use crate::config::ChiaPeerConfig;
use crate::error::ChiaPeerError;
use crate::fetcher::{CoinStatesRequest, PagedRead, PagedReadView, PeerFetcher};
use crate::protocol::{
    coin_id_of, encodes_new_peak, law_new_peak_is_unambiguous, law_update_is_unambiguous,
    parse_coin_state_update, parse_new_peak_wallet, u32_bytes, CoinState, CoinStateFilters,
    CoinStateUpdate, CoinStateUpdateView, NewPeakWallet,
};
use crate::provider::{ChiaPeerProvider, ProviderInfo};

verus! {

/// The priority a provider registers with by default; lower is tried earlier.
pub const DEFAULT_PROVIDER_PRIORITY: i32 = 20;

/// What became of a submitted spend bundle.
#[derive(Debug, Clone, Copy, PartialEq, Eq, Structural)]
pub enum SubmitOutcome {
    /// Taken into the mempool.
    Accepted,
    /// Held by the node for now.
    Pending,
    /// Rejected by the node.
    Failed,
    /// The node acknowledged with a status that is not known.
    Unknown(u8),
}

impl SubmitOutcome {
    /// The outcome that an acknowledgement's status stands for.
    pub open spec fn of_status(status: u8) -> Self {
        if status == 1 {
            SubmitOutcome::Accepted
        } else if status == 2 {
            SubmitOutcome::Pending
        } else if status == 3 {
            SubmitOutcome::Failed
        } else {
            SubmitOutcome::Unknown(status)
        }
    }

    /// The outcome that an acknowledgement's status stands for.
    pub fn from_status(status: u8) -> (outcome: Self)
        ensures
            outcome == Self::of_status(status),
    {
        match status {
            1 => SubmitOutcome::Accepted,
            2 => SubmitOutcome::Pending,
            3 => SubmitOutcome::Failed,
            other => SubmitOutcome::Unknown(other),
        }
    }

    /// Whether the node took custody of the bundle.
    pub fn is_accepted(self) -> (accepted: bool)
        ensures
            accepted == (self is Accepted || self is Pending),
    {
        match self {
            SubmitOutcome::Accepted | SubmitOutcome::Pending => true,
            _ => false,
        }
    }
}

/// A node took custody of a bundle exactly if it acknowledged with status 1 or 2; different statuses
/// have different outcomes.
pub proof fn law_ack_status_decides_the_outcome(a: u8, b: u8)
    ensures
        (SubmitOutcome::of_status(a) is Accepted || SubmitOutcome::of_status(a) is Pending) <==> (a
            == 1 || a == 2),
        SubmitOutcome::of_status(a) == SubmitOutcome::of_status(b) ==> a == b,
{
}

/// What a message that a peer pushes is about.
#[derive(Debug, Clone, Copy, PartialEq, Eq, Structural)]
pub enum MessageKind {
    /// A new chain tip.
    NewPeakWallet,
    /// Changed coins.
    CoinStateUpdate,
    /// Anything else.
    Other,
}

/// What became of a message that a peer pushed.
#[derive(Debug, Clone, Copy, PartialEq, Eq, Structural)]
pub enum Received {
    /// It reported a peak.
    Peak,
    /// It reported changed coins, `overflow` of which were dropped for want of room.
    Update { overflow: usize },
    /// It could not be decoded, and was dropped.
    Undecodable,
    /// It is about something else, and was ignored.
    Ignored,
}

/// The ids of the coins that `items` report as spent, in order.
pub open spec fn spent_ids(items: Seq<CoinState>) -> Seq<Bytes32>
    decreases items.len(),
{
    if items.len() == 0 {
        Seq::empty()
    } else if items.last().spent_height is Some {
        spent_ids(items.drop_last()).push(items.last().id())
    } else {
        spent_ids(items.drop_last())
    }
}

impl CacheView {
    /// The cache after a pushed update: applied, and what it reports as spent no longer subscribed.
    pub open spec fn pushed(self, update: CoinStateUpdateView) -> Self {
        self.updated(update.items, update.height, update.fork_height, update.peak_hash)
            .coins_untracked(spent_ids(update.items))
    }

    /// How many items a pushed update drops for want of room.
    pub open spec fn overflow_of(self, update: CoinStateUpdateView) -> nat {
        self.overflow_of_update(update.items, update.height, update.fork_height, update.peak_hash)
    }

    /// `received` is what becomes of a pushed message.
    pub open spec fn takes_as(
        self,
        kind: MessageKind,
        data: Seq<u8>,
        received: Received,
    ) -> bool {
        match kind {
            MessageKind::NewPeakWallet => received == if data.len() == 56 {
                Received::Peak
            } else {
                Received::Undecodable
            },
            MessageKind::CoinStateUpdate => if exists|update: CoinStateUpdateView| #[trigger]
                update.encoded_by(data) {
                received is Update && exists|update: CoinStateUpdateView| #[trigger]
                    update.encoded_by(data) && received->overflow == self.overflow_of(update)
            } else {
                received == Received::Undecodable
            },
            MessageKind::Other => received == Received::Ignored,
        }
    }

    /// `after` is the cache after a pushed message. What cannot be decoded, and what is not about
    /// the peak or coins, changes nothing.
    pub open spec fn receives(self, kind: MessageKind, data: Seq<u8>, after: Self) -> bool {
        match kind {
            MessageKind::NewPeakWallet => if data.len() == 56 {
                exists|peak: NewPeakWallet| #[trigger]
                    encodes_new_peak(data, peak) && after == self.advanced_to(
                        peak.height,
                        peak.header_hash,
                    )
            } else {
                after == self
            },
            MessageKind::CoinStateUpdate => if exists|update: CoinStateUpdateView| #[trigger]
                update.encoded_by(data) {
                exists|update: CoinStateUpdateView| #[trigger]
                    update.encoded_by(data) && after == self.pushed(update)
            } else {
                after == self
            },
            MessageKind::Other => after == self,
        }
    }
}

/// The ids of the coins that `items` report as spent.
fn spent_coin_ids(items: &[CoinState]) -> (ids: Vec<Bytes32>)
    ensures
        ids@ == spent_ids(items@),
{
    let mut ids: Vec<Bytes32> = Vec::new();
    let mut i: usize = 0;
    assert(items@.take(0) =~= Seq::<CoinState>::empty());
    while i < items.len()
        invariant
            i <= items@.len(),
            ids@ == spent_ids(items@.take(i as int)),
        decreases items@.len() - i,
    {
        if items[i].spent_height.is_some() {
            ids.push(items[i].coin.coin_id());
        }
        i += 1;
        assert(items@.take(i as int).drop_last() =~= items@.take(i - 1));
    }
    assert(items@.take(i as int) =~= items@);
    ids
}

/// Applies a decoded update to the cache and stops subscribing to the coins it reports as spent.
/// Their state stays, for reads. Returns how many items were dropped for want of room.
pub fn apply_coin_state_update(cache: &mut CoinStateCache, update: &CoinStateUpdate) -> (overflow:
    usize)
    requires
        old(cache).wf(),
    ensures
        final(cache).wf(),
        final(cache)@ == old(cache)@.pushed(update@),
        overflow == old(cache)@.overflow_of(update@),
{
    let spent: Vec<Bytes32> = spent_coin_ids(update.items.as_slice());
    let overflow: usize = cache.apply_update(
        update.items.as_slice(),
        update.height,
        update.fork_height,
        update.peak_hash,
    );
    cache.untrack_coins(spent.as_slice());
    overflow
}

/// Takes a pushed message in. A message that cannot be decoded is dropped.
pub fn handle_message(cache: &mut CoinStateCache, kind: MessageKind, data: &[u8]) -> (received:
    Received)
    requires
        old(cache).wf(),
    ensures
        final(cache).wf(),
        old(cache)@.receives(kind, data@, final(cache)@),
        old(cache)@.takes_as(kind, data@, received),
{
    match kind {
        MessageKind::NewPeakWallet => match parse_new_peak_wallet(data) {
            Some(peak) => {
                cache.set_peak(peak.height, peak.header_hash);
                Received::Peak
            },
            None => Received::Undecodable,
        },
        MessageKind::CoinStateUpdate => match parse_coin_state_update(data) {
            Some(update) => {
                let overflow: usize = apply_coin_state_update(cache, &update);
                Received::Update { overflow }
            },
            None => Received::Undecodable,
        },
        MessageKind::Other => Received::Ignored,
    }
}

/// The subscriptions to issue again after a reconnect.
#[derive(Debug, Clone, PartialEq, Eq)]
pub struct Rearm {
    /// The coins to subscribe to, if there are any.
    pub coins: Option<Vec<Bytes32>>,
    /// The puzzle hashes to subscribe to, if there are any, and which coins under them to include.
    pub puzzle_hashes: Option<(Vec<Bytes32>, CoinStateFilters)>,
}

/// `listed` names the members of `ids`, each once, or is `None` if there are none.
pub open spec fn lists_if_any(listed: Option<Seq<Bytes32>>, ids: Set<Bytes32>) -> bool {
    match listed {
        Some(list) => list.len() > 0 && list.no_duplicates() && list.to_set() == ids,
        None => ids == Set::<Bytes32>::empty(),
    }
}

impl Rearm {
    /// These are the subscriptions that `cache` holds.
    pub open spec fn covers(self, cache: CacheView) -> bool {
        &&& lists_if_any(
            match self.coins {
                Some(ids) => Some(ids@),
                None => None,
            },
            cache.subscribed_coins,
        )
        &&& lists_if_any(
            match self.puzzle_hashes {
                Some(asked) => Some(asked.0@),
                None => None,
            },
            cache.subscribed_puzzle_hashes,
        )
        &&& self.puzzle_hashes matches Some(asked) ==> asked.1 == (CoinStateFilters {
            include_spent: true,
            include_unspent: true,
            include_hinted: true,
            min_amount: 0,
        })
    }
}

/// What has happened since the last action of a [`Rearm`].
#[derive(Debug, PartialEq, Eq)]
pub enum RearmEvent {
    /// Nothing was issued yet.
    Started,
    /// The subscription to the coins came to this.
    CoinsAnswered(Result<(), ChiaPeerError>),
    /// The subscription to the puzzle hashes came to this.
    PuzzleHashesAnswered(Result<(), ChiaPeerError>),
}

/// What to do next in a [`Rearm`].
#[derive(Debug, PartialEq, Eq)]
pub enum RearmAction {
    /// Subscribe to these coins.
    SubscribeCoins(Vec<Bytes32>),
    /// Subscribe to these puzzle hashes, including these coins under them.
    SubscribePuzzleHashes(Vec<Bytes32>, CoinStateFilters),
    /// Report that this is what re-arming came to.
    Finish(Result<(), ChiaPeerError>),
}

impl Rearm {
    /// What is left to issue, and what to do, once the coins are done with: the puzzle hashes, if
    /// there are any.
    pub open spec fn after_coins(self) -> (Rearm, RearmAction) {
        match self.puzzle_hashes {
            Some((hashes, filters)) => (
                Rearm { coins: None, puzzle_hashes: None },
                RearmAction::SubscribePuzzleHashes(hashes, filters),
            ),
            None => (
                Rearm { coins: None, puzzle_hashes: None },
                RearmAction::Finish(Ok(())),
            ),
        }
    }

    /// What is left to issue, and what to do, after `event`. Coins come first, if there are any. A
    /// subscription that fails ends re-arming with its error, and nothing more is issued.
    pub open spec fn after(self, event: RearmEvent) -> (Rearm, RearmAction) {
        match event {
            RearmEvent::Started => match self.coins {
                Some(ids) => (
                    Rearm { coins: None, puzzle_hashes: self.puzzle_hashes },
                    RearmAction::SubscribeCoins(ids),
                ),
                None => self.after_coins(),
            },
            RearmEvent::CoinsAnswered(Ok(_)) => self.after_coins(),
            RearmEvent::CoinsAnswered(Err(error)) => (
                Rearm { coins: None, puzzle_hashes: None },
                RearmAction::Finish(Err(error)),
            ),
            RearmEvent::PuzzleHashesAnswered(answer) => (
                Rearm { coins: None, puzzle_hashes: None },
                RearmAction::Finish(answer),
            ),
        }
    }

    /// Decides what to do once the coins are done with.
    fn finish_coins(self) -> (next: (Rearm, RearmAction))
        ensures
            next == self.after_coins(),
    {
        let action = match self.puzzle_hashes {
            Some((hashes, filters)) => RearmAction::SubscribePuzzleHashes(hashes, filters),
            None => RearmAction::Finish(Ok(())),
        };
        (Rearm { coins: None, puzzle_hashes: None }, action)
    }

    /// Decides what to do after `event`, and what is left to issue then.
    pub fn step(self, event: RearmEvent) -> (next: (Rearm, RearmAction))
        ensures
            next == self.after(event),
    {
        match event {
            RearmEvent::Started => {
                let Rearm { coins, puzzle_hashes } = self;
                let left = Rearm { coins: None, puzzle_hashes };
                match coins {
                    Some(ids) => (left, RearmAction::SubscribeCoins(ids)),
                    None => left.finish_coins(),
                }
            },
            RearmEvent::CoinsAnswered(Ok(())) => self.finish_coins(),
            RearmEvent::CoinsAnswered(Err(error)) => (
                Rearm { coins: None, puzzle_hashes: None },
                RearmAction::Finish(Err(error)),
            ),
            RearmEvent::PuzzleHashesAnswered(answer) => (
                Rearm { coins: None, puzzle_hashes: None },
                RearmAction::Finish(answer),
            ),
        }
    }
}

/// A connected light client. `P` is a connection to a peer.
pub struct ChiaLightClient<P> {
    /// How the client connects.
    pub config: ChiaPeerConfig,
    /// The peer it reads through.
    pub fetcher: PeerFetcher<P>,
    /// What it has subscribed to, and the state of it.
    pub cache: CoinStateCache,
}

impl<P: Clone> ChiaLightClient<P> {
    /// The client that comes of dialing: connected if a peer was reached.
    pub fn connect(config: ChiaPeerConfig, dialed: Result<P, ChiaPeerError>) -> (connected: Result<
        Self,
        ChiaPeerError,
    >)
        ensures
            match dialed {
                Ok(peer) => connected is Ok && connected->Ok_0.starts(config, peer),
                Err(error) => connected == Err::<Self, ChiaPeerError>(error),
            },
    {
        match dialed {
            Ok(peer) => Ok(Self::from_connection(config, peer)),
            Err(error) => Err(error),
        }
    }

    /// This is a client connected to `peer` that has seen nothing yet.
    pub open spec fn starts(self, config: ChiaPeerConfig, peer: P) -> bool {
        &&& self.config == config
        &&& self.fetcher.peer == Some(peer)
        &&& self.fetcher.genesis_challenge.bytes@ == config.network.genesis_bytes()
        &&& self.fetcher.request_timeout == config.request_timeout
        &&& self.cache.wf()
        &&& self.cache@ == CacheView::empty()
    }

    /// A client over a peer that is already connected, with nothing subscribed.
    pub fn from_connection(config: ChiaPeerConfig, peer: P) -> (client: Self)
        ensures
            client.starts(config, peer),
    {
        let fetcher = PeerFetcher::new(
            peer,
            config.network.genesis_challenge(),
            config.request_timeout,
        );
        ChiaLightClient { config, fetcher, cache: CoinStateCache::new() }
    }

    /// Asks for the state of `coin_ids`, and for reports of later changes.
    pub fn request_coins(&self, coin_ids: Vec<Bytes32>) -> (outcome: Result<
        (P, CoinStatesRequest),
        ChiaPeerError,
    >)
        ensures
            self.fetcher.asks(
                outcome,
                |request: CoinStatesRequest|
                    request == (CoinStatesRequest {
                        coin_ids,
                        previous_height: None,
                        header_hash: self.fetcher.genesis_challenge,
                        subscribe: true,
                    }),
            ),
    {
        self.fetcher.coin_states(coin_ids, true)
    }

    /// Takes over what the peer answered to a subscription to `coin_ids`: the coins are subscribed,
    /// their state is cached, and that state is returned. An error leaves the client as it was.
    pub fn subscribe_coins(
        &mut self,
        coin_ids: &[Bytes32],
        answer: Result<Vec<CoinState>, ChiaPeerError>,
    ) -> (outcome: Result<Vec<CoinState>, ChiaPeerError>)
        requires
            old(self).cache.wf(),
        ensures
            final(self).cache.wf(),
            final(self).config == old(self).config,
            final(self).fetcher == old(self).fetcher,
            match answer {
                Ok(states) => {
                    &&& outcome == Ok::<Vec<CoinState>, ChiaPeerError>(states)
                    &&& final(self).cache@ == old(self).cache@.coins_tracked(coin_ids@).seeded(
                        states@,
                    )
                },
                Err(error) => {
                    &&& outcome == Err::<Vec<CoinState>, ChiaPeerError>(error)
                    &&& final(self).cache@ == old(self).cache@
                },
            },
    {
        match answer {
            Ok(states) => {
                self.cache.track_coins(coin_ids);
                self.cache.seed(states.as_slice());
                Ok(states)
            },
            Err(error) => Err(error),
        }
    }

    /// Starts the paged read that subscribes to puzzle hashes. Its pages are asked for with
    /// [`PagedRead::subscription_request`].
    pub fn request_puzzle_hashes(&self) -> (outcome: Result<(P, PagedRead), ChiaPeerError>)
        ensures
            self.fetcher.asks(
                outcome,
                |read: PagedRead| read@ == PagedReadView::start(self.fetcher.genesis_challenge),
            ),
    {
        self.fetcher.puzzle_states()
    }

    /// Takes over what the peer answered to a subscription to `puzzle_hashes`: they are subscribed
    /// and the state of their coins is cached. An error leaves the client as it was.
    pub fn subscribe_puzzle_hashes(
        &mut self,
        puzzle_hashes: &[Bytes32],
        answer: Result<Vec<CoinState>, ChiaPeerError>,
    ) -> (outcome: Result<(), ChiaPeerError>)
        requires
            old(self).cache.wf(),
        ensures
            final(self).cache.wf(),
            final(self).config == old(self).config,
            final(self).fetcher == old(self).fetcher,
            match answer {
                Ok(states) => outcome is Ok && final(self).cache@ == old(
                    self,
                ).cache@.puzzle_hashes_tracked(puzzle_hashes@).seeded(states@),
                Err(error) => outcome == Err::<(), ChiaPeerError>(error) && final(self).cache@
                    == old(self).cache@,
            },
    {
        match answer {
            Ok(states) => {
                self.cache.track_puzzle_hashes(puzzle_hashes);
                self.cache.seed(states.as_slice());
                Ok(())
            },
            Err(error) => Err(error),
        }
    }

    /// What a submission came to.
    pub fn submit_spend(answer: Result<u8, ChiaPeerError>) -> (outcome: Result<
        SubmitOutcome,
        ChiaPeerError,
    >)
        ensures
            match answer {
                Ok(status) => outcome == Ok::<SubmitOutcome, ChiaPeerError>(
                    SubmitOutcome::of_status(status),
                ),
                Err(error) => outcome == Err::<SubmitOutcome, ChiaPeerError>(error),
            },
    {
        match answer {
            Ok(status) => Ok(SubmitOutcome::from_status(status)),
            Err(error) => Err(error),
        }
    }

    /// The height and header hash of the current peak, if one is known.
    pub fn peak(&self) -> (peak: Option<(u32, Bytes32)>)
        ensures
            peak == self.cache@.peak,
    {
        self.cache.peak()
    }

    /// Takes over what the peer answered to the removal of subscriptions to `coin_ids`: they are no
    /// longer subscribed, and their state stays. An error leaves the client as it was.
    pub fn unsubscribe_coins(
        &mut self,
        coin_ids: &[Bytes32],
        answer: Result<(), ChiaPeerError>,
    ) -> (outcome: Result<(), ChiaPeerError>)
        requires
            old(self).cache.wf(),
        ensures
            final(self).cache.wf(),
            final(self).config == old(self).config,
            final(self).fetcher == old(self).fetcher,
            match answer {
                Ok(_) => outcome is Ok && final(self).cache@ == old(self).cache@.coins_untracked(
                    coin_ids@,
                ),
                Err(error) => outcome == Err::<(), ChiaPeerError>(error) && final(self).cache@
                    == old(self).cache@,
            },
    {
        match answer {
            Ok(()) => {
                self.cache.untrack_coins(coin_ids);
                Ok(())
            },
            Err(error) => Err(error),
        }
    }

    /// Takes over what dialing again came to: the new peer replaces the old one, and every
    /// subscription is to be issued again. An error leaves the client as it was.
    pub fn reconnect(&mut self, dialed: Result<P, ChiaPeerError>) -> (outcome: Result<
        Rearm,
        ChiaPeerError,
    >)
        requires
            old(self).cache.wf(),
        ensures
            final(self).cache == old(self).cache,
            final(self).config == old(self).config,
            match dialed {
                Ok(peer) => {
                    &&& outcome is Ok
                    &&& outcome->Ok_0.covers(old(self).cache@)
                    &&& final(self).fetcher == (PeerFetcher {
                        peer: Some(peer),
                        ..old(self).fetcher
                    })
                },
                Err(error) => outcome == Err::<Rearm, ChiaPeerError>(error) && final(self).fetcher
                    == old(self).fetcher,
            },
    {
        match dialed {
            Ok(peer) => {
                self.fetcher.swap_peer(peer);
                Ok(self.rearm_subscriptions())
            },
            Err(error) => Err(error),
        }
    }

    /// The subscriptions to issue again against the current peer: those that the cache holds.
    pub fn rearm_subscriptions(&self) -> (rearm: Rearm)
        requires
            self.cache.wf(),
        ensures
            rearm.covers(self.cache@),
    {
        let coins: Vec<Bytes32> = self.cache.subscribed_coins();
        let hashes: Vec<Bytes32> = self.cache.subscribed_puzzle_hashes();
        let filters = CoinStateFilters {
            include_spent: true,
            include_unspent: true,
            include_hinted: true,
            min_amount: 0,
        };
        proof {
            if coins@.len() == 0 {
                assert(coins@.to_set() =~= Set::<Bytes32>::empty());
            }
            if hashes@.len() == 0 {
                assert(hashes@.to_set() =~= Set::<Bytes32>::empty());
            }
        }
        Rearm {
            coins: if coins.len() > 0 {
                Some(coins)
            } else {
                None
            },
            puzzle_hashes: if hashes.len() > 0 {
                Some((hashes, filters))
            } else {
                None
            },
        }
    }

    /// The read side of this client, as a provider to register.
    pub fn as_chain_source_provider(&self) -> (provider: ChiaPeerProvider)
        ensures
            provider.info == ProviderInfo::of_client(self.config),
    {
        ChiaPeerProvider::new(self.provider_info())
    }

    /// How this client describes itself as a provider.
    pub fn provider_info(&self) -> (info: ProviderInfo)
        ensures
            info == ProviderInfo::of_client(self.config),
    {
        ProviderInfo::for_config(&self.config)
    }
}

/// The spent ids of `items` name a coin exactly if an item reports it as spent.
proof fn lemma_spent_ids(items: Seq<CoinState>, id: Bytes32)
    ensures
        spent_ids(items).contains(id) <==> exists|i: int|
            0 <= i < items.len() && (#[trigger] items[i]).spent_height is Some && items[i].id()
                == id,
    decreases items.len(),
{
    if items.len() > 0 {
        let earlier = items.drop_last();
        let last = items.last();
        lemma_spent_ids(earlier, id);
        assert(forall|i: int| 0 <= i < earlier.len() ==> earlier[i] == #[trigger] items[i]);
        if last.spent_height is Some {
            let ids = spent_ids(earlier);
            assert(spent_ids(items) == ids.push(last.id()));
            assert(ids.push(last.id())[ids.len() as int] == last.id());
            if ids.contains(id) {
                let k = choose|k: int| 0 <= k < ids.len() && ids[k] == id;
                assert(ids.push(last.id())[k] == id);
            }
        }
        if exists|i: int|
            0 <= i < earlier.len() && (#[trigger] earlier[i]).spent_height is Some
                && earlier[i].id() == id {
            let i = choose|i: int|
                0 <= i < earlier.len() && (#[trigger] earlier[i]).spent_height is Some
                    && earlier[i].id() == id;
            assert(items[i].spent_height is Some && items[i].id() == id);
        }
        if last.spent_height is Some && last.id() == id {
            assert(items[items.len() - 1].id() == id);
        }
    }
}

/// A pushed update drops exactly the subscriptions to the coins it reports as spent, keeps every
/// other subscription, and leaves the cached states as the update makes them.
pub proof fn law_spent_coins_are_unsubscribed_and_kept(
    cache: CacheView,
    update: CoinStateUpdateView,
    id: Bytes32,
)
    ensures
        ({
            let after = cache.pushed(update);
            &&& after.subscribed_coins.contains(id) <==> cache.subscribed_coins.contains(id)
                && !exists|i: int|
                0 <= i < update.items.len() && (#[trigger] update.items[i]).spent_height is Some
                    && update.items[i].id() == id
            &&& after.subscribed_puzzle_hashes == cache.subscribed_puzzle_hashes
            &&& after.coins == cache.updated(
                update.items,
                update.height,
                update.fork_height,
                update.peak_hash,
            ).coins
        }),
{
    lemma_spent_ids(update.items, id);
    law_update_keeps_subscriptions(
        cache,
        update.items,
        update.height,
        update.fork_height,
        update.peak_hash,
    );
}

/// A message has one effect: the cache after it follows from the cache before it and the bytes.
pub proof fn law_messages_have_one_effect(
    cache: CacheView,
    kind: MessageKind,
    data: Seq<u8>,
    a: CacheView,
    b: CacheView,
)
    requires
        cache.receives(kind, data, a),
        cache.receives(kind, data, b),
    ensures
        a == b,
{
    match kind {
        MessageKind::NewPeakWallet => if data.len() == 56 {
            let x = choose|x: NewPeakWallet| #[trigger]
                encodes_new_peak(data, x) && a == cache.advanced_to(x.height, x.header_hash);
            let y = choose|y: NewPeakWallet| #[trigger]
                encodes_new_peak(data, y) && b == cache.advanced_to(y.height, y.header_hash);
            law_new_peak_is_unambiguous(data, x, y);
        },
        MessageKind::CoinStateUpdate => if exists|update: CoinStateUpdateView| #[trigger]
            update.encoded_by(data) {
            let x = choose|x: CoinStateUpdateView| #[trigger]
                x.encoded_by(data) && a == cache.pushed(x);
            let y = choose|y: CoinStateUpdateView| #[trigger]
                y.encoded_by(data) && b == cache.pushed(y);
            law_update_is_unambiguous(data, x, y);
        },
        MessageKind::Other => {},
    }
}

/// What becomes of a message is told in one way: it follows from the cache and the bytes.
pub proof fn law_messages_are_told_in_one_way(
    cache: CacheView,
    kind: MessageKind,
    data: Seq<u8>,
    a: Received,
    b: Received,
)
    requires
        cache.takes_as(kind, data, a),
        cache.takes_as(kind, data, b),
    ensures
        a == b,
{
    if a is Update && b is Update {
        let x = choose|x: CoinStateUpdateView| #[trigger]
            x.encoded_by(data) && a->overflow == cache.overflow_of(x);
        let y = choose|y: CoinStateUpdateView| #[trigger]
            y.encoded_by(data) && b->overflow == cache.overflow_of(y);
        law_update_is_unambiguous(data, x, y);
    }
}

/// Whatever a peer pushes, it cannot make the client subscribe to anything.
pub proof fn law_messages_never_subscribe(
    cache: CacheView,
    kind: MessageKind,
    data: Seq<u8>,
    after: CacheView,
)
    requires
        cache.receives(kind, data, after),
    ensures
        after.subscribed_coins.subset_of(cache.subscribed_coins),
        after.subscribed_puzzle_hashes == cache.subscribed_puzzle_hashes,
{
    if kind is CoinStateUpdate && after != cache {
        let update = choose|update: CoinStateUpdateView| #[trigger]
            update.encoded_by(data) && after == cache.pushed(update);
        law_update_keeps_subscriptions(
            cache,
            update.items,
            update.height,
            update.fork_height,
            update.peak_hash,
        );
    }
}

/// Whatever comes in a new-peak message, it never lowers the peak; and a message of any other kind
/// but an update changes nothing.
pub proof fn law_only_an_update_can_lower_the_peak(
    cache: CacheView,
    kind: MessageKind,
    data: Seq<u8>,
    after: CacheView,
)
    requires
        cache.receives(kind, data, after),
        !(kind is CoinStateUpdate),
        cache.peak_height() is Some,
    ensures
        after.peak_height() is Some,
        after.peak_height()->0 >= cache.peak_height()->0,
        kind is Other ==> after == cache,
{
}

/// Issuing the subscriptions of a client again changes neither what it is subscribed to nor its
/// peak, whatever states the new peer returns.
pub proof fn law_rearming_keeps_subscriptions(
    cache: CacheView,
    rearm: Rearm,
    coin_states: Seq<CoinState>,
    puzzle_states: Seq<CoinState>,
)
    requires
        rearm.covers(cache),
    ensures
        rearm.coins matches Some(ids) ==> {
            let after = cache.coins_tracked(ids@).seeded(coin_states);
            &&& rearm.covers(after)
            &&& after.subscribed_coins == cache.subscribed_coins
            &&& after.subscribed_puzzle_hashes == cache.subscribed_puzzle_hashes
            &&& after.peak == cache.peak
        },
        rearm.puzzle_hashes matches Some(asked) ==> {
            let after = cache.puzzle_hashes_tracked(asked.0@).seeded(puzzle_states);
            &&& after.subscribed_coins == cache.subscribed_coins
            &&& after.subscribed_puzzle_hashes == cache.subscribed_puzzle_hashes
            &&& after.peak == cache.peak
        },
{
    if let Some(ids) = rearm.coins {
        law_seed_keeps_subscriptions_and_peak(cache.coins_tracked(ids@), coin_states);
        assert(cache.coins_tracked(ids@).subscribed_coins =~= cache.subscribed_coins);
    }
    if let Some(asked) = rearm.puzzle_hashes {
        law_seed_keeps_subscriptions_and_peak(cache.puzzle_hashes_tracked(asked.0@), puzzle_states);
        assert(cache.puzzle_hashes_tracked(asked.0@).subscribed_puzzle_hashes
            =~= cache.subscribed_puzzle_hashes);
    }
}

/// Re-arming issues the coins first and the puzzle hashes second, each once and only if there are
/// any; a failed subscription to the coins ends it with that error and without the puzzle hashes;
/// and what the last subscription comes to is what re-arming comes to.
pub proof fn law_rearming_runs_in_order(
    rearm: Rearm,
    error: ChiaPeerError,
    answer: Result<(), ChiaPeerError>,
)
    ensures
        rearm.coins matches Some(ids) ==> {
            let (left, first) = rearm.after(RearmEvent::Started);
            &&& first == RearmAction::SubscribeCoins(ids)
            &&& left.after(RearmEvent::CoinsAnswered(Err(error))).1 == RearmAction::Finish(
                Err(error),
            )
            &&& left.after(RearmEvent::CoinsAnswered(Ok(()))) == rearm.after_coins()
        },
        rearm.coins is None ==> rearm.after(RearmEvent::Started) == rearm.after_coins(),
        rearm.puzzle_hashes matches Some(asked) ==> {
            let (left, second) = rearm.after_coins();
            &&& second == RearmAction::SubscribePuzzleHashes(asked.0, asked.1)
            &&& left.after(RearmEvent::PuzzleHashesAnswered(answer)).1 == RearmAction::Finish(
                answer,
            )
        },
        rearm.puzzle_hashes is None ==> rearm.after_coins().1 == RearmAction::Finish(Ok(())),
{
}

/// A subscribed coin is served from the cache: the last state that the peer returned for it is what
/// is cached, unless it is above the peak, and the coin is subscribed.
pub proof fn law_subscribed_coins_are_cached(
    cache: CacheView,
    coin_ids: Seq<Bytes32>,
    states: Seq<CoinState>,
    i: int,
)
    requires
        0 <= i < states.len(),
        coin_ids.contains(states[i].id()),
        !cache.above_peak(states[i]),
        forall|j: int| i < j < states.len() ==> (#[trigger] states[j]).id() != states[i].id(),
    ensures
        ({
            let after = cache.coins_tracked(coin_ids).seeded(states);
            &&& after.subscribed_coins.contains(states[i].id())
            &&& after.coins.contains_key(states[i].id())
            &&& after.coins[states[i].id()] == states[i]
        }),
{
    let subscribed = cache.coins_tracked(coin_ids);
    law_seed_keeps_subscriptions_and_peak(subscribed, states);
    law_seed_then_get(subscribed, states, i);
}

/// What each acknowledgement status stands for: 1 is accepted, 2 pending, 3 failed, and every other
/// status is unknown and kept.
pub proof fn law_what_each_status_stands_for(status: u8)
    ensures
        SubmitOutcome::of_status(status) is Accepted <==> status == 1,
        SubmitOutcome::of_status(status) is Pending <==> status == 2,
        SubmitOutcome::of_status(status) is Failed <==> status == 3,
        status == 0 || status > 3 ==> SubmitOutcome::of_status(status) == SubmitOutcome::Unknown(
            status,
        ),
{
}

/// What a new-peak message does. Its height is the number that bytes 32 to 35 spell, most significant
/// first, and its header hash is the first 32 bytes. If no peak is known, or the height is not below
/// the known one, exactly that becomes the peak, and exactly the coins created above it are dropped.
/// A lower height, or any other length of the message, changes nothing.
#[verifier::rlimit(50)]
pub proof fn law_what_a_new_peak_message_does(
    cache: CacheView,
    data: Seq<u8>,
    after: CacheView,
    id: Bytes32,
)
    requires
        cache.receives(MessageKind::NewPeakWallet, data, after),
    ensures
        data.len() != 56 ==> after == cache,
        data.len() == 56 ==> {
            let height = data[32] * 0x100_0000 + data[33] * 0x1_0000 + data[34] * 0x100 + data[35];
            &&& (cache.peak is None || height >= (cache.peak->0).0) ==> {
                &&& after.peak is Some
                &&& (after.peak->0).0 == height
                &&& (after.peak->0).1.bytes@ == data.take(32)
                &&& after.coins.contains_key(id) <==> (cache.coins.contains_key(id) && (
                cache.coins[id].created_height is Some ==> cache.coins[id].created_height->0
                    <= height))
                &&& after.coins.contains_key(id) ==> after.coins[id] == cache.coins[id]
                &&& after.subscribed_coins == cache.subscribed_coins
                &&& after.subscribed_puzzle_hashes == cache.subscribed_puzzle_hashes
            }
            &&& (cache.peak is Some && height < (cache.peak->0).0) ==> after == cache
        },
{
    if data.len() == 56 {
        let peak = choose|peak: NewPeakWallet| #[trigger]
            encodes_new_peak(data, peak) && after == cache.advanced_to(
                peak.height,
                peak.header_hash,
            );
        assert(encodes_new_peak(data, peak));
        let h = peak.height;
        let spelled = data.subrange(32, 36);
        assert(spelled[0] == data[32] && spelled[1] == data[33] && spelled[2] == data[34]
            && spelled[3] == data[35]);
        assert(u32_bytes(h) == spelled);
        assert(u32_bytes(h)[0] == spelled[0] && u32_bytes(h)[1] == spelled[1] && u32_bytes(h)[2]
            == spelled[2] && u32_bytes(h)[3] == spelled[3]);
        law_a_peak_report_becomes_the_peak_unless_it_is_lower(cache, h, peak.header_hash, id);
    }
}

/// What a changed-coins message does: the coins and the peak are as the update it says leaves them,
/// and exactly the coins that an item reports as spent are no longer subscribed. A message that says
/// no update, and a message about anything else, changes nothing.
pub proof fn law_what_an_update_message_does(
    cache: CacheView,
    data: Seq<u8>,
    update: CoinStateUpdateView,
    after: CacheView,
    id: Bytes32,
)
    requires
        cache.receives(MessageKind::CoinStateUpdate, data, after),
    ensures
        update.encoded_by(data) ==> {
            let applied = cache.updated(
                update.items,
                update.height,
                update.fork_height,
                update.peak_hash,
            );
            &&& after.coins == applied.coins
            &&& after.peak == applied.peak
            &&& after.subscribed_puzzle_hashes == cache.subscribed_puzzle_hashes
            &&& after.subscribed_coins.contains(id) <==> (cache.subscribed_coins.contains(id)
                && forall|i: int|
                0 <= i < update.items.len() && (#[trigger] update.items[i]).spent_height is Some
                    ==> coin_id_of(update.items[i].coin) != id)
        },
        (forall|said: CoinStateUpdateView| !#[trigger] said.encoded_by(data)) ==> after == cache,
{
    if update.encoded_by(data) {
        let said = choose|said: CoinStateUpdateView| #[trigger]
            said.encoded_by(data) && after == cache.pushed(said);
        law_update_is_unambiguous(data, said, update);
        law_spent_coins_are_unsubscribed_and_kept(cache, update, id);
        let items = update.items;
        if exists|i: int|
            0 <= i < items.len() && (#[trigger] items[i]).spent_height is Some && items[i].id()
                == id {
            let i = choose|i: int|
                0 <= i < items.len() && (#[trigger] items[i]).spent_height is Some && items[i].id()
                    == id;
            assert(coin_id_of(items[i].coin) == id);
        }
        assert(after.subscribed_coins.contains(id) <==> (cache.subscribed_coins.contains(id)
            && !exists|i: int|
            0 <= i < items.len() && (#[trigger] items[i]).spent_height is Some && items[i].id()
                == id));
    }
}

/// A message that is about neither the peak nor coins changes nothing.
pub proof fn law_other_messages_change_nothing(cache: CacheView, data: Seq<u8>, after: CacheView)
    requires
        cache.receives(MessageKind::Other, data, after),
    ensures
        after == cache,
{
}

/// What is told of a message: a peak exactly for a new-peak message of 56 bytes; an update, and how
/// many of its items were dropped for want of room, exactly for a changed-coins message that says
/// one; that it could not be decoded for any other message of these two kinds; and that it was
/// ignored for every message of another kind.
pub proof fn law_what_is_told_of_a_message(
    cache: CacheView,
    kind: MessageKind,
    data: Seq<u8>,
    update: CoinStateUpdateView,
    received: Received,
)
    requires
        cache.takes_as(kind, data, received),
    ensures
        received is Ignored <==> kind is Other,
        received is Peak <==> (kind is NewPeakWallet && data.len() == 56),
        kind is NewPeakWallet && data.len() != 56 ==> received is Undecodable,
        kind is CoinStateUpdate && update.encoded_by(data) ==> received is Update
            && received->overflow == cache.overflow_of_update(
            update.items,
            update.height,
            update.fork_height,
            update.peak_hash,
        ),
        kind is CoinStateUpdate && (forall|said: CoinStateUpdateView|
            !#[trigger] said.encoded_by(data)) ==> received is Undecodable,
{
    if kind is CoinStateUpdate && update.encoded_by(data) {
        let said = choose|said: CoinStateUpdateView| #[trigger]
            said.encoded_by(data) && received->overflow == cache.overflow_of(said);
        law_update_is_unambiguous(data, said, update);
    }
}

/// What is issued again after a reconnect names every subscribed coin, each once, and nothing else,
/// whether or not a puzzle hash is subscribed; and every subscribed puzzle hash likewise, whether or
/// not a coin is, including spent, unspent and hinted coins of any amount under it.
pub proof fn law_rearming_names_every_subscription(cache: CacheView, rearm: Rearm, id: Bytes32)
    requires
        rearm.covers(cache),
    ensures
        cache.subscribed_coins.contains(id) <==> (rearm.coins is Some && rearm.coins->0@.contains(
            id,
        )),
        rearm.coins is Some ==> rearm.coins->0@.no_duplicates() && rearm.coins->0@.len() > 0,
        cache.subscribed_puzzle_hashes.contains(id) <==> (rearm.puzzle_hashes is Some && (
        rearm.puzzle_hashes->0).0@.contains(id)),
        rearm.puzzle_hashes is Some ==> {
            &&& (rearm.puzzle_hashes->0).0@.no_duplicates()
            &&& (rearm.puzzle_hashes->0).0@.len() > 0
            &&& (rearm.puzzle_hashes->0).1.include_spent
            &&& (rearm.puzzle_hashes->0).1.include_unspent
            &&& (rearm.puzzle_hashes->0).1.include_hinted
            &&& (rearm.puzzle_hashes->0).1.min_amount == 0
        },
{
    if let Some(ids) = rearm.coins {
        assert(ids@.to_set().contains(id) <==> ids@.contains(id));
    }
    if let Some(asked) = rearm.puzzle_hashes {
        assert(asked.0@.to_set().contains(id) <==> asked.0@.contains(id));
    }
}

/// What re-arming issues, answer by answer. First come the coins, if there are any, and otherwise
/// the puzzle hashes; once the coins are subscribed, the puzzle hashes, if there are any; and an
/// error, of either, is what it comes to at once.
pub proof fn law_what_rearming_issues(rearm: Rearm, error: ChiaPeerError)
    ensures
        ({
            let (left, first) = rearm.after(RearmEvent::Started);
            let second = left.after(RearmEvent::CoinsAnswered(Ok(()))).1;
            &&& rearm.coins is Some ==> {
                &&& first == RearmAction::SubscribeCoins(rearm.coins->0)
                &&& rearm.puzzle_hashes is Some ==> second == RearmAction::SubscribePuzzleHashes(
                    (rearm.puzzle_hashes->0).0,
                    (rearm.puzzle_hashes->0).1,
                )
                &&& rearm.puzzle_hashes is None ==> second == RearmAction::Finish(Ok(()))
            }
            &&& rearm.coins is None && rearm.puzzle_hashes is Some ==> first
                == RearmAction::SubscribePuzzleHashes(
                (rearm.puzzle_hashes->0).0,
                (rearm.puzzle_hashes->0).1,
            )
            &&& rearm.coins is None && rearm.puzzle_hashes is None ==> first
                == RearmAction::Finish(Ok(()))
        }),
        rearm.after(RearmEvent::CoinsAnswered(Err(error))).1 == RearmAction::Finish(Err(error)),
        rearm.after(RearmEvent::PuzzleHashesAnswered(Err(error))).1 == RearmAction::Finish(
            Err(error),
        ),
        rearm.after(RearmEvent::PuzzleHashesAnswered(Ok(()))).1 == RearmAction::Finish(Ok(())),
{
}

/// A client starts connected to its peer, reads from its network's genesis challenge within the
/// configured request timeout, and has cached and subscribed to nothing.
pub proof fn law_how_a_client_starts<P: Clone>(
    client: ChiaLightClient<P>,
    config: ChiaPeerConfig,
    peer: P,
    id: Bytes32,
)
    requires
        client.starts(config, peer),
    ensures
        client.config == config,
        client.fetcher.peer == Some(peer),
        client.fetcher.genesis_challenge.bytes@ == config.network.genesis_bytes(),
        client.fetcher.request_timeout == config.request_timeout,
        client.cache.wf(),
        client.cache@.peak is None,
        !client.cache@.coins.contains_key(id),
        !client.cache@.subscribed_coins.contains(id),
        !client.cache@.subscribed_puzzle_hashes.contains(id),
{
}

/// What a decoded update does: the coins and the peak are as applying it leaves them, exactly the
/// coins that an item reports as spent are no longer subscribed, and as many items are reported as
/// dropped as applying it drops.
pub proof fn law_what_a_pushed_update_does(
    cache: CacheView,
    update: CoinStateUpdateView,
    id: Bytes32,
)
    ensures
        ({
            let applied = cache.updated(
                update.items,
                update.height,
                update.fork_height,
                update.peak_hash,
            );
            let after = cache.pushed(update);
            &&& after.coins == applied.coins
            &&& after.peak == applied.peak
            &&& after.subscribed_puzzle_hashes == cache.subscribed_puzzle_hashes
            &&& after.subscribed_coins.contains(id) <==> (cache.subscribed_coins.contains(id)
                && forall|i: int|
                0 <= i < update.items.len() && (#[trigger] update.items[i]).spent_height is Some
                    ==> coin_id_of(update.items[i].coin) != id)
            &&& cache.overflow_of(update) == cache.overflow_of_update(
                update.items,
                update.height,
                update.fork_height,
                update.peak_hash,
            )
        }),
{
    law_spent_coins_are_unsubscribed_and_kept(cache, update, id);
    let items = update.items;
    if exists|i: int|
        0 <= i < items.len() && (#[trigger] items[i]).spent_height is Some && items[i].id() == id {
        let i = choose|i: int|
            0 <= i < items.len() && (#[trigger] items[i]).spent_height is Some && items[i].id()
                == id;
        assert(coin_id_of(items[i].coin) == id);
    }
}

/// A provider registers with priority 20 by default.
pub proof fn law_the_default_priority()
    ensures
        DEFAULT_PROVIDER_PRIORITY == 20,
{
}

} // verus!
