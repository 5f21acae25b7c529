//! [`CoinStateCache`]: the local mirror of the coin and puzzle-hash state a light client has
//! subscribed to, kept current from the peer's update stream and consulted first by reads.
//!
//! ## Reorgs
//!
//! An update names a fork height, the last block its tip still agrees with. Whatever the cache
//! learned above that fork is suspect:
//! - a coin created above the fork that the update does not re-assert no longer exists, so it is
//!   dropped;
//! - a coin spent above the fork is unspent again, unless the update says otherwise.
//!
//! The update's own items are authoritative for the coins they mention, so they overwrite what the
//! cache holds of them. Only after that does a reorg lower the peak.
//!
//! ## Confirmation counts
//!
//! No cached coin is ever created above the peak, so `peak - created` never underflows. Two
//! boundaries keep it so: a coin above the peak is refused when it is added, and every change of
//! the peak sweeps out the coins that are now above it.

use vstd::prelude::*;

use crate::bytes::Bytes32;
use crate::id_map::{IdMap, IdSet};
use crate::protocol::CoinState;

verus! {

/// How many cached coins each subscribed puzzle hash makes room for. Bounds the memory that a
/// puzzle-hash subscription lets an untrusted peer fill.
pub const MAX_COINS_PER_PUZZLE_HASH: usize = 10_000;

/// `state` after the blocks above `fork_height` are undone: gone if it was created in one of them,
/// unspent if it was spent in one of them.
pub open spec fn rolled_back(state: CoinState, fork_height: u32) -> Option<CoinState> {
    if state.created_above(fork_height) {
        None
    } else if state.spent_above(fork_height) {
        Some(CoinState { spent_height: None, ..state })
    } else {
        Some(state)
    }
}

/// What a [`CoinStateCache`] holds.
#[verifier::ext_equal]
pub struct CacheView {
    /// The cached coin states, by coin id.
    pub coins: Map<Bytes32, CoinState>,
    /// The ids of the subscribed coins.
    pub subscribed_coins: Set<Bytes32>,
    /// The subscribed puzzle hashes.
    pub subscribed_puzzle_hashes: Set<Bytes32>,
    /// The height and header hash of the peak, once one is known.
    pub peak: Option<(u32, Bytes32)>,
}

impl CacheView {
    /// A cache that holds nothing.
    pub open spec fn empty() -> Self {
        CacheView {
            coins: Map::empty(),
            subscribed_coins: Set::empty(),
            subscribed_puzzle_hashes: Set::empty(),
            peak: None,
        }
    }

    /// The peak's height, once a peak is known.
    pub open spec fn peak_height(self) -> Option<u32> {
        match self.peak {
            Some(peak) => Some(peak.0),
            None => None,
        }
    }

    /// `state` was created above the peak.
    pub open spec fn above_peak(self, state: CoinState) -> bool {
        self.peak is Some && state.created_above((self.peak->0).0)
    }

    /// Everything cached is finite, filed under its own coin id, and not above the peak.
    pub open spec fn valid(self) -> bool {
        &&& self.coins.dom().finite()
        &&& self.subscribed_coins.finite()
        &&& self.subscribed_puzzle_hashes.finite()
        &&& forall|id: Bytes32| #[trigger]
            self.coins.contains_key(id) ==> self.coins[id].id() == id && !self.above_peak(
                self.coins[id],
            )
    }

    /// `state` belongs to the subscribed set: its coin or its puzzle hash is subscribed.
    pub open spec fn subscribes(self, state: CoinState) -> bool {
        self.subscribed_coins.contains(state.id()) || self.subscribed_puzzle_hashes.contains(
            state.coin.puzzle_hash,
        )
    }

    /// How many coins the cache makes room for: one per subscribed coin and
    /// [`MAX_COINS_PER_PUZZLE_HASH`] per subscribed puzzle hash.
    pub open spec fn max_cached_coins(self) -> int {
        let room = self.subscribed_coins.len() + self.subscribed_puzzle_hashes.len()
            * MAX_COINS_PER_PUZZLE_HASH;
        if room > usize::MAX {
            usize::MAX as int
        } else {
            room
        }
    }

    /// The cache with the peak set and the coins above it swept out.
    pub open spec fn with_peak(self, height: u32, header_hash: Bytes32) -> Self {
        CacheView {
            coins: Map::new(
                |id: Bytes32| self.coins.contains_key(id) && !self.coins[id].created_above(height),
                |id: Bytes32| self.coins[id],
            ),
            peak: Some((height, header_hash)),
            ..self
        }
    }

    /// The cache after a peak report: taken over unless it is lower than the known peak.
    pub open spec fn advanced_to(self, height: u32, header_hash: Bytes32) -> Self {
        if self.peak is None || height >= (self.peak->0).0 {
            self.with_peak(height, header_hash)
        } else {
            self
        }
    }

    /// The cache after `state` is added: refused if it is above the peak, otherwise filed under its
    /// coin id.
    pub open spec fn admitted(self, state: CoinState) -> Self {
        if self.above_peak(state) {
            self
        } else {
            CacheView { coins: self.coins.insert(state.id(), state), ..self }
        }
    }

    /// The cache after `states` are added one after the other.
    pub open spec fn seeded(self, states: Seq<CoinState>) -> Self
        decreases states.len(),
    {
        if states.len() == 0 {
            self
        } else {
            self.seeded(states.drop_last()).admitted(states.last())
        }
    }

    /// One of `items` is subscribed and about coin `id`.
    pub open spec fn reasserts(self, items: Seq<CoinState>, id: Bytes32) -> bool {
        exists|i: int|
            0 <= i < items.len() && self.subscribes(#[trigger] items[i]) && items[i].id() == id
    }

    /// The cache with the blocks above `fork_height` undone for every coin that `items` do not
    /// re-assert.
    pub open spec fn rolled_back(self, items: Seq<CoinState>, fork_height: u32) -> Self {
        CacheView {
            coins: Map::new(
                |id: Bytes32|
                    self.coins.contains_key(id) && (self.reasserts(items, id) || rolled_back(
                        self.coins[id],
                        fork_height,
                    ) is Some),
                |id: Bytes32|
                    if self.reasserts(items, id) {
                        self.coins[id]
                    } else {
                        rolled_back(self.coins[id], fork_height)->0
                    },
            ),
            ..self
        }
    }

    /// Undoing the blocks above `fork_height` changes the cached state of coin `id`, which is
    /// subscribed and which `items` do not re-assert.
    pub open spec fn undoes(self, items: Seq<CoinState>, fork_height: u32, id: Bytes32) -> bool {
        &&& self.coins.contains_key(id)
        &&& !self.reasserts(items, id)
        &&& self.subscribes(self.coins[id])
        &&& self.coins[id].created_above(fork_height) || self.coins[id].spent_above(fork_height)
    }

    /// The update moves the chain to another branch, for certain: its fork lies below the known
    /// peak, undoing the blocks above the fork changes subscribed state, and its tip is not below
    /// its own fork.
    pub open spec fn authoritative_reorg(
        self,
        items: Seq<CoinState>,
        height: u32,
        fork_height: u32,
    ) -> bool {
        &&& self.peak is Some
        &&& fork_height < (self.peak->0).0
        &&& height >= fork_height
        &&& exists|id: Bytes32| #[trigger] self.undoes(items, fork_height, id)
    }

    /// The cache after one update item: dropped if it is not subscribed, or if it is a new coin and
    /// the cache already holds `room` coins.
    pub open spec fn item_admitted(self, state: CoinState, room: int) -> Self {
        if !self.subscribes(state) {
            self
        } else if !self.coins.contains_key(state.id()) && self.coins.dom().len() >= room {
            self
        } else {
            self.admitted(state)
        }
    }

    /// The cache after update items are added one after the other.
    pub open spec fn items_admitted(self, items: Seq<CoinState>, room: int) -> Self
        decreases items.len(),
    {
        if items.len() == 0 {
            self
        } else {
            self.items_admitted(items.drop_last(), room).item_admitted(items.last(), room)
        }
    }

    /// An update item that is dropped for want of room: subscribed and new, with the cache full.
    pub open spec fn overflows(self, state: CoinState, room: int) -> bool {
        &&& self.subscribes(state)
        &&& !self.coins.contains_key(state.id())
        &&& self.coins.dom().len() >= room
    }

    /// How many update items are dropped for want of room.
    pub open spec fn items_overflowing(self, items: Seq<CoinState>, room: int) -> nat
        decreases items.len(),
    {
        if items.len() == 0 {
            0
        } else {
            let earlier = self.items_overflowing(items.drop_last(), room);
            if self.items_admitted(items.drop_last(), room).overflows(items.last(), room) {
                earlier + 1
            } else {
                earlier
            }
        }
    }

    /// The cache as an update's items find it: the blocks above the fork are undone, and a known
    /// peak has advanced if the update's tip is not below it.
    pub open spec fn before_items(
        self,
        items: Seq<CoinState>,
        height: u32,
        fork_height: u32,
        peak_hash: Bytes32,
    ) -> Self {
        if self.peak is Some {
            self.rolled_back(items, fork_height).advanced_to(height, peak_hash)
        } else {
            self.rolled_back(items, fork_height)
        }
    }

    /// The cache after an update: its items are added, and then the peak is settled. Only an
    /// authoritative reorg moves the peak down.
    pub open spec fn updated(
        self,
        items: Seq<CoinState>,
        height: u32,
        fork_height: u32,
        peak_hash: Bytes32,
    ) -> Self {
        let added = self.before_items(items, height, fork_height, peak_hash).items_admitted(
            items,
            self.max_cached_coins(),
        );
        if self.authoritative_reorg(items, height, fork_height) {
            added.with_peak(height, peak_hash)
        } else {
            added.advanced_to(height, peak_hash)
        }
    }

    /// How many items an update drops for want of room.
    pub open spec fn overflow_of_update(
        self,
        items: Seq<CoinState>,
        height: u32,
        fork_height: u32,
        peak_hash: Bytes32,
    ) -> nat {
        self.before_items(items, height, fork_height, peak_hash).items_overflowing(
            items,
            self.max_cached_coins(),
        )
    }

    /// The cache with `ids` added to the subscribed coins.
    pub open spec fn coins_tracked(self, ids: Seq<Bytes32>) -> Self {
        CacheView { subscribed_coins: self.subscribed_coins.union(ids.to_set()), ..self }
    }

    /// The cache with `hashes` added to the subscribed puzzle hashes.
    pub open spec fn puzzle_hashes_tracked(self, hashes: Seq<Bytes32>) -> Self {
        CacheView {
            subscribed_puzzle_hashes: self.subscribed_puzzle_hashes.union(hashes.to_set()),
            ..self
        }
    }

    /// The cache with `ids` taken out of the subscribed coins.
    pub open spec fn coins_untracked(self, ids: Seq<Bytes32>) -> Self {
        CacheView { subscribed_coins: self.subscribed_coins.difference(ids.to_set()), ..self }
    }
}

/// A light client's local view of its subscribed coins and puzzle hashes, and the current peak.
pub struct CoinStateCache {
    coins: IdMap<CoinState>,
    subscribed_coins: IdSet,
    subscribed_puzzle_hashes: IdSet,
    peak: Option<(u32, Bytes32)>,
}

impl View for CoinStateCache {
    type V = CacheView;

    closed spec fn view(&self) -> CacheView {
        CacheView {
            coins: self.coins@,
            subscribed_coins: self.subscribed_coins@,
            subscribed_puzzle_hashes: self.subscribed_puzzle_hashes@,
            peak: self.peak,
        }
    }
}

impl CoinStateCache {
    /// The parts are well formed.
    pub closed spec fn stored(&self) -> bool {
        &&& self.coins.wf()
        &&& self.subscribed_coins.wf()
        &&& self.subscribed_puzzle_hashes.wf()
    }

    /// The cache is well formed, and what it holds is valid.
    pub open spec fn wf(&self) -> bool {
        self.stored() && self@.valid()
    }

    /// A fresh, empty cache.
    pub fn new() -> (cache: Self)
        ensures
            cache.wf(),
            cache@ == CacheView::empty(),
    {
        CoinStateCache {
            coins: IdMap::new(),
            subscribed_coins: IdSet::new(),
            subscribed_puzzle_hashes: IdSet::new(),
            peak: None,
        }
    }

    /// The height and header hash of the current peak, if one has been observed.
    pub fn peak(&self) -> (peak: Option<(u32, Bytes32)>)
        ensures
            peak == self@.peak,
    {
        self.peak
    }

    /// The cached state of `coin_id`, if there is one.
    pub fn get(&self, coin_id: Bytes32) -> (state: Option<CoinState>)
        requires
            self.wf(),
        ensures
            state == (if self@.coins.contains_key(coin_id) {
                Some(self@.coins[coin_id])
            } else {
                None
            }),
    {
        self.coins.get(coin_id)
    }

    /// Takes the peak over and sweeps out the coins above it.
    fn replace_peak(&mut self, height: u32, header_hash: Bytes32)
        requires
            old(self).stored(),
            forall|id: Bytes32| #[trigger]
                old(self)@.coins.contains_key(id) ==> old(self)@.coins[id].id() == id,
        ensures
            final(self).wf(),
            final(self)@ == old(self)@.with_peak(height, header_hash),
    {
        let ghost before = self.coins@;
        proof {
            self.coins.lemma_listing();
        }
        let mut i: usize = 0;
        while i < self.coins.len()
            invariant
                self.stored(),
                self.subscribed_coins == old(self).subscribed_coins,
                self.subscribed_puzzle_hashes == old(self).subscribed_puzzle_hashes,
                self.peak == old(self).peak,
                i <= self.coins.listing().len(),
                forall|j: int|
                    0 <= j < i ==> !(#[trigger] self.coins.listing()[j]).1.created_above(height),
                forall|id: Bytes32| #[trigger]
                    self.coins@.contains_key(id) ==> before.contains_key(id) && self.coins@[id]
                        == before[id],
                forall|id: Bytes32| #[trigger]
                    before.contains_key(id) && !self.coins@.contains_key(id)
                        ==> before[id].created_above(height),
            decreases self.coins.listing().len() - i,
        {
            proof {
                self.coins.lemma_listing();
            }
            let entry = self.coins.entry(i);
            if entry.1.is_created_above(height) {
                self.coins.remove_at(i);
            } else {
                i += 1;
            }
        }
        proof {
            self.coins.lemma_listing();
            self.subscribed_coins.lemma_finite();
            self.subscribed_puzzle_hashes.lemma_finite();
            assert forall|id: Bytes32| #[trigger] self.coins@.contains_key(
                id,
            ) implies !self.coins@[id].created_above(height) by {
                let ids = crate::id_map::entry_ids(self.coins.listing());
                assert(ids.contains(id));
                let j = ids.index_of(id);
                assert(self.coins.listing()[j].0 == id);
            }
        }
        self.peak = Some((height, header_hash));
        assert(self@.coins =~= old(self)@.with_peak(height, header_hash).coins);
    }

    /// Records a peak report. The peak only advances: a report below the known peak is ignored.
    pub fn set_peak(&mut self, height: u32, header_hash: Bytes32)
        requires
            old(self).wf(),
        ensures
            final(self).wf(),
            final(self)@ == old(self)@.advanced_to(height, header_hash),
    {
        let stale = match self.peak {
            Some((known, _)) => height < known,
            None => false,
        };
        if !stale {
            self.replace_peak(height, header_hash);
        }
    }

    /// Adds one coin state, or refuses it if it is above the peak. Every coin enters here.
    fn add_state(&mut self, state: CoinState)
        requires
            old(self).wf(),
        ensures
            final(self).wf(),
            final(self)@ == old(self)@.admitted(state),
    {
        let above_peak = match self.peak {
            Some((height, _)) => state.is_created_above(height),
            None => false,
        };
        if !above_peak {
            self.coins.insert(state.coin.coin_id(), state);
            proof {
                self.coins.lemma_listing();
            }
        }
    }

    /// Adds the coin states that a subscribe response returned, replacing earlier states of the
    /// same coins. A coin above the peak is refused.
    pub fn seed(&mut self, states: &[CoinState])
        requires
            old(self).wf(),
        ensures
            final(self).wf(),
            final(self)@ == old(self)@.seeded(states@),
    {
        let mut i: usize = 0;
        assert(states@.take(0) =~= Seq::<CoinState>::empty());
        while i < states.len()
            invariant
                i <= states@.len(),
                self.wf(),
                self@ == old(self)@.seeded(states@.take(i as int)),
            decreases states@.len() - i,
        {
            self.add_state(states[i]);
            i += 1;
            assert(states@.take(i as int).drop_last() =~= states@.take(i - 1));
        }
        assert(states@.take(i as int) =~= states@);
    }

    /// Records that `coin_ids` are now subscribed.
    pub fn track_coins(&mut self, coin_ids: &[Bytes32])
        requires
            old(self).wf(),
        ensures
            final(self).wf(),
            final(self)@ == old(self)@.coins_tracked(coin_ids@),
    {
        let mut i: usize = 0;
        assert(self@ =~= self@.coins_tracked(coin_ids@.take(0)));
        while i < coin_ids.len()
            invariant
                i <= coin_ids@.len(),
                self.wf(),
                self@ == old(self)@.coins_tracked(coin_ids@.take(i as int)),
            decreases coin_ids@.len() - i,
        {
            self.subscribed_coins.insert(coin_ids[i]);
            i += 1;
            proof {
                lemma_take_one_more(coin_ids@, i - 1);
                self.subscribed_coins.lemma_finite();
                assert(self@ =~= old(self)@.coins_tracked(coin_ids@.take(i as int)));
            }
        }
        assert(coin_ids@.take(i as int) =~= coin_ids@);
    }

    /// Records that `puzzle_hashes` are now subscribed.
    pub fn track_puzzle_hashes(&mut self, puzzle_hashes: &[Bytes32])
        requires
            old(self).wf(),
        ensures
            final(self).wf(),
            final(self)@ == old(self)@.puzzle_hashes_tracked(puzzle_hashes@),
    {
        let mut i: usize = 0;
        assert(self@ =~= self@.puzzle_hashes_tracked(puzzle_hashes@.take(0)));
        while i < puzzle_hashes.len()
            invariant
                i <= puzzle_hashes@.len(),
                self.wf(),
                self@ == old(self)@.puzzle_hashes_tracked(puzzle_hashes@.take(i as int)),
            decreases puzzle_hashes@.len() - i,
        {
            self.subscribed_puzzle_hashes.insert(puzzle_hashes[i]);
            i += 1;
            proof {
                lemma_take_one_more(puzzle_hashes@, i - 1);
                self.subscribed_puzzle_hashes.lemma_finite();
                assert(self@ =~= old(self)@.puzzle_hashes_tracked(puzzle_hashes@.take(i as int)));
            }
        }
        assert(puzzle_hashes@.take(i as int) =~= puzzle_hashes@);
    }

    /// Drops `coin_ids` from the subscribed coins. Their cached state stays until it is
    /// overwritten.
    pub fn untrack_coins(&mut self, coin_ids: &[Bytes32])
        requires
            old(self).wf(),
        ensures
            final(self).wf(),
            final(self)@ == old(self)@.coins_untracked(coin_ids@),
    {
        let mut i: usize = 0;
        assert(self@ =~= self@.coins_untracked(coin_ids@.take(0)));
        while i < coin_ids.len()
            invariant
                i <= coin_ids@.len(),
                self.wf(),
                self@ == old(self)@.coins_untracked(coin_ids@.take(i as int)),
            decreases coin_ids@.len() - i,
        {
            self.subscribed_coins.remove(coin_ids[i]);
            i += 1;
            proof {
                lemma_take_one_more(coin_ids@, i - 1);
                self.subscribed_coins.lemma_finite();
                assert(self@ =~= old(self)@.coins_untracked(coin_ids@.take(i as int)));
            }
        }
        assert(coin_ids@.take(i as int) =~= coin_ids@);
    }

    /// Whether `coin_id` is currently subscribed.
    pub fn is_subscribed_coin(&self, coin_id: Bytes32) -> (subscribed: bool)
        requires
            self.wf(),
        ensures
            subscribed == self@.subscribed_coins.contains(coin_id),
    {
        self.subscribed_coins.contains(coin_id)
    }

    /// The subscribed coin ids, each once, in no particular order.
    pub fn subscribed_coins(&self) -> (ids: Vec<Bytes32>)
        requires
            self.wf(),
        ensures
            ids@.no_duplicates(),
            ids@.to_set() == self@.subscribed_coins,
    {
        self.subscribed_coins.to_vec()
    }

    /// The subscribed puzzle hashes, each once, in no particular order.
    pub fn subscribed_puzzle_hashes(&self) -> (hashes: Vec<Bytes32>)
        requires
            self.wf(),
        ensures
            hashes@.no_duplicates(),
            hashes@.to_set() == self@.subscribed_puzzle_hashes,
    {
        self.subscribed_puzzle_hashes.to_vec()
    }

    /// Whether `state` belongs to the subscribed set: its coin id is subscribed, or its puzzle hash
    /// is, which is how new coins under a watched puzzle hash are discovered.
    fn is_subscribed(&self, state: &CoinState) -> (subscribed: bool)
        requires
            self.wf(),
        ensures
            subscribed == self@.subscribes(*state),
    {
        self.subscribed_coins.contains(state.coin.coin_id())
            || self.subscribed_puzzle_hashes.contains(state.coin.puzzle_hash)
    }

    /// How many coins the cache makes room for.
    fn max_cached_coins(&self) -> (room: usize)
        requires
            self.wf(),
        ensures
            room == self@.max_cached_coins(),
    {
        let discovery: usize = match self.subscribed_puzzle_hashes.len().checked_mul(
            MAX_COINS_PER_PUZZLE_HASH,
        ) {
            Some(room) => room,
            None => usize::MAX,
        };
        self.subscribed_coins.len().saturating_add(discovery)
    }

    /// The ids of the coins that subscribed `items` are about.
    fn reasserted_ids(&self, items: &[CoinState]) -> (ids: IdSet)
        requires
            self.wf(),
        ensures
            ids.wf(),
            forall|id: Bytes32| #[trigger]
                ids@.contains(id) <==> self@.reasserts(items@, id),
    {
        let mut ids = IdSet::new();
        let mut i: usize = 0;
        while i < items.len()
            invariant
                i <= items@.len(),
                self.wf(),
                ids.wf(),
                forall|id: Bytes32| #[trigger]
                    ids@.contains(id) <==> self@.reasserts(items@.take(i as int), id),
            decreases items@.len() - i,
        {
            let ghost before = ids@;
            if self.is_subscribed(&items[i]) {
                ids.insert(items[i].coin.coin_id());
            }
            i += 1;
            assert forall|id: Bytes32| #[trigger] ids@.contains(id) <==> self@.reasserts(
                items@.take(i as int),
                id,
            ) by {
                let shorter = items@.take(i - 1);
                let longer = items@.take(i as int);
                assert(longer[i - 1] == items@[i - 1]);
                assert(forall|j: int| 0 <= j < i - 1 ==> #[trigger] longer[j] == shorter[j]);
                assert(before.contains(id) <==> self@.reasserts(shorter, id));
                if self@.reasserts(shorter, id) {
                    let j = choose|j: int|
                        0 <= j < shorter.len() && self@.subscribes(#[trigger] shorter[j])
                            && shorter[j].id() == id;
                    assert(self@.subscribes(longer[j]) && longer[j].id() == id);
                }
                if self@.reasserts(longer, id) {
                    let j = choose|j: int|
                        0 <= j < longer.len() && self@.subscribes(#[trigger] longer[j])
                            && longer[j].id() == id;
                    if j < i - 1 {
                        assert(self@.subscribes(shorter[j]) && shorter[j].id() == id);
                    }
                }
            }
        }
        assert(items@.take(i as int) =~= items@);
        ids
    }

    /// Undoes the blocks above `fork_height` for every cached coin that `items` do not re-assert,
    /// and says whether that changed the state of a subscribed coin.
    fn roll_back(&mut self, items: &[CoinState], fork_height: u32) -> (changed: bool)
        requires
            old(self).wf(),
        ensures
            final(self).wf(),
            final(self)@ == old(self)@.rolled_back(items@, fork_height),
            changed == exists|id: Bytes32| #[trigger]
                old(self)@.undoes(items@, fork_height, id),
    {
        let ghost start = self@;
        let ghost before = self.coins@;
        let reasserted = self.reasserted_ids(items);
        let mut changed = false;
        proof {
            self.coins.lemma_listing();
        }
        let mut i: usize = 0;
        while i < self.coins.len()
            invariant
                start == old(self)@,
                start.valid(),
                before == start.coins,
                self.stored(),
                self.subscribed_coins == old(self).subscribed_coins,
                self.subscribed_puzzle_hashes == old(self).subscribed_puzzle_hashes,
                self.peak == old(self).peak,
                self.peak == start.peak,
                start.subscribed_coins == self.subscribed_coins@,
                start.subscribed_puzzle_hashes == self.subscribed_puzzle_hashes@,
                reasserted.wf(),
                forall|id: Bytes32| #[trigger]
                    reasserted@.contains(id) <==> start.reasserts(items@, id),
                i <= self.coins.listing().len(),
                forall|j: int|
                    0 <= j < i ==> kept_state(
                        start,
                        items@,
                        fork_height,
                        (#[trigger] self.coins.listing()[j]).0,
                    ) == Some(self.coins.listing()[j].1),
                forall|j: int|
                    i <= j < self.coins.listing().len() ==> (
                    #[trigger] self.coins.listing()[j]).1 == before[self.coins.listing()[j].0],
                forall|id: Bytes32| #[trigger]
                    self.coins@.contains_key(id) ==> before.contains_key(id),
                forall|id: Bytes32| #[trigger]
                    before.contains_key(id) && !self.coins@.contains_key(id) ==> kept_state(
                        start,
                        items@,
                        fork_height,
                        id,
                    ) is None,
                changed ==> exists|id: Bytes32| #[trigger] start.undoes(items@, fork_height, id),
                !changed ==> forall|j: int|
                    0 <= j < i ==> !start.undoes(
                        items@,
                        fork_height,
                        (#[trigger] self.coins.listing()[j]).0,
                    ),
                !changed ==> forall|id: Bytes32| #[trigger]
                    before.contains_key(id) && !self.coins@.contains_key(id) ==> !start.undoes(
                        items@,
                        fork_height,
                        id,
                    ),
            decreases self.coins.listing().len() - i,
        {
            proof {
                self.coins.lemma_listing();
            }
            let (id, state) = self.coins.entry(i);
            let ghost listing = self.coins.listing();
            assert(listing[i as int] == (id, state));
            assert(self.coins@.contains_key(id));
            assert(state == before[id] && state.id() == id);
            if reasserted.contains(id) {
                i += 1;
            } else {
                let created_above = state.is_created_above(fork_height);
                let spent_above = state.is_spent_above(fork_height);
                if (created_above || spent_above) && (self.subscribed_coins.contains(id)
                    || self.subscribed_puzzle_hashes.contains(state.coin.puzzle_hash)) {
                    changed = true;
                    assert(start.undoes(items@, fork_height, id));
                }
                if created_above {
                    self.coins.remove_at(i);
                    assert(kept_state(start, items@, fork_height, id) is None);
                } else {
                    if spent_above {
                        self.coins.set_value(i, CoinState { spent_height: None, ..state });
                    }
                    i += 1;
                }
            }
        }
        proof {
            self.coins.lemma_listing();
            self.subscribed_coins.lemma_finite();
            self.subscribed_puzzle_hashes.lemma_finite();
            let listing = self.coins.listing();
            let ids = crate::id_map::entry_ids(listing);
            assert forall|id: Bytes32| #[trigger] self.coins@.contains_key(id) implies kept_state(
                start,
                items@,
                fork_height,
                id,
            ) == Some(self.coins@[id]) && (!changed ==> !start.undoes(
                items@,
                fork_height,
                id,
            )) by {
                assert(ids.contains(id));
                let j = ids.index_of(id);
                assert(listing[j].0 == id);
            }
            assert(self@.coins =~= start.rolled_back(items@, fork_height).coins) by {
                assert forall|id: Bytes32| self@.coins.contains_key(id)
                    <==> start.rolled_back(items@, fork_height).coins.contains_key(id) by {
                    if before.contains_key(id) && !self.coins@.contains_key(id) {
                        assert(kept_state(start, items@, fork_height, id) is None);
                    }
                }
            }
            if !changed {
                assert(forall|id: Bytes32|
                    before.contains_key(id) || !#[trigger] start.undoes(items@, fork_height, id));
            }
        }
        changed
    }

    /// Applies an update from an untrusted peer: undoes the blocks above `fork_height`, adds the
    /// subscribed `items`, and settles the peak. A peak that advances does so before the items are
    /// added, so that they are not above it; one that is lowered, or set for the first time, sweeps
    /// after them.
    ///
    /// An item that belongs to no subscription is dropped, so a peer cannot plant coins that later
    /// answer a read. New coins are admitted only while there is room, so a puzzle-hash
    /// subscription cannot be used to exhaust memory. Returns how many were dropped for want of it.
    pub fn apply_update(
        &mut self,
        items: &[CoinState],
        height: u32,
        fork_height: u32,
        peak_hash: Bytes32,
    ) -> (overflow: usize)
        requires
            old(self).wf(),
        ensures
            final(self).wf(),
            final(self)@ == old(self)@.updated(items@, height, fork_height, peak_hash),
            overflow == old(self)@.overflow_of_update(items@, height, fork_height, peak_hash),
    {
        let ghost start = self@;
        let changed = self.roll_back(items, fork_height);
        let below_peak = match self.peak {
            Some((known, _)) => fork_height < known,
            None => false,
        };
        let reorg = changed && below_peak && height >= fork_height;
        if self.peak.is_some() {
            self.set_peak(height, peak_hash);
        }
        let ghost found = self@;
        assert(found == start.before_items(items@, height, fork_height, peak_hash));

        let room: usize = self.max_cached_coins();
        let mut overflow: usize = 0;
        let mut i: usize = 0;
        assert(items@.take(0) =~= Seq::<CoinState>::empty());
        while i < items.len()
            invariant
                i <= items@.len(),
                self.wf(),
                self@ == found.items_admitted(items@.take(i as int), room as int),
                overflow <= i,
                overflow == found.items_overflowing(items@.take(i as int), room as int),
            decreases items@.len() - i,
        {
            let state = items[i];
            if self.is_subscribed(&state) {
                if self.coins.contains_key(state.coin.coin_id()) || self.coins.len() < room {
                    self.add_state(state);
                } else {
                    overflow += 1;
                }
            }
            i += 1;
            assert(items@.take(i as int).drop_last() =~= items@.take(i - 1));
        }
        assert(items@.take(i as int) =~= items@);
        if reorg {
            self.replace_peak(height, peak_hash);
        } else {
            self.set_peak(height, peak_hash);
        }
        overflow
    }
}

/// The state that coin `id` of the cache keeps when the blocks above `fork_height` are undone.
spec fn kept_state(
    cache: CacheView,
    items: Seq<CoinState>,
    fork_height: u32,
    id: Bytes32,
) -> Option<CoinState> {
    if cache.reasserts(items, id) {
        Some(cache.coins[id])
    } else {
        rolled_back(cache.coins[id], fork_height)
    }
}

/// Taking one more element of a list adds it to the set of those taken.
proof fn lemma_take_one_more(s: Seq<Bytes32>, i: int)
    requires
        0 <= i < s.len(),
    ensures
        s.take(i + 1).to_set() == s.take(i).to_set().insert(s[i]),
{
    let shorter = s.take(i);
    let longer = s.take(i + 1);
    assert forall|x: Bytes32| longer.contains(x) <==> (shorter.contains(x) || x == s[i]) by {
        assert(longer[i] == s[i]);
        if shorter.contains(x) {
            let j = choose|j: int| 0 <= j < shorter.len() && shorter[j] == x;
            assert(longer[j] == x);
        }
        if longer.contains(x) {
            let j = choose|j: int| 0 <= j < longer.len() && longer[j] == x;
            if j < i {
                assert(shorter[j] == x);
            }
        }
    }
    assert(longer.to_set() =~= shorter.to_set().insert(s[i]));
}

} // verus!
