//! What each operation of the subscription cache does, told coin by coin and height by height.
//!
//! Nothing here leans on how the operations are put together: the statements speak of the cached
//! coins, the two subscription sets, the peak and the arguments alone.

use vstd::prelude::*;

use crate::bytes::Bytes32;
use crate::cache::CacheView;
use crate::cache_laws::{
    lemma_found_frame, lemma_items_keep_frame, lemma_items_leave_others, lemma_items_origin,
    lemma_items_room,
};
use crate::protocol::{coin_id_of, CoinState};

verus! {

/// A valid cache is finite, files every coin under its own id, and holds no coin created above the
/// peak; and any such cache is valid.
pub proof fn law_valid_caches(cache: CacheView)
    ensures
        cache.valid() <==> {
            &&& cache.coins.dom().finite()
            &&& cache.subscribed_coins.finite()
            &&& cache.subscribed_puzzle_hashes.finite()
            &&& forall|id: Bytes32|
                cache.coins.contains_key(id) ==> coin_id_of((#[trigger] cache.coins[id]).coin) == id
            &&& forall|id: Bytes32|
                cache.coins.contains_key(id) && cache.peak is Some && (
                #[trigger] cache.coins[id]).created_height is Some
                    ==> cache.coins[id].created_height->0 <= (cache.peak->0).0
        },
{
    if cache.coins.dom().finite() && cache.subscribed_coins.finite()
        && cache.subscribed_puzzle_hashes.finite() && (forall|id: Bytes32|
        cache.coins.contains_key(id) ==> coin_id_of((#[trigger] cache.coins[id]).coin) == id) && (
    forall|id: Bytes32|
        cache.coins.contains_key(id) && cache.peak is Some && (
        #[trigger] cache.coins[id]).created_height is Some ==> cache.coins[id].created_height->0
            <= (cache.peak->0).0) {
        assert forall|id: Bytes32| #[trigger] cache.coins.contains_key(id) implies cache.coins[id].id()
            == id && !cache.above_peak(cache.coins[id]) by {
            let state = cache.coins[id];
            assert(coin_id_of(state.coin) == id);
        }
    }
    if cache.valid() {
        assert forall|id: Bytes32| cache.coins.contains_key(id) implies coin_id_of(
            (#[trigger] cache.coins[id]).coin,
        ) == id by {}
        assert forall|id: Bytes32|
            cache.coins.contains_key(id) && cache.peak is Some && (
            #[trigger] cache.coins[id]).created_height is Some implies cache.coins[id].created_height->0
            <= (cache.peak->0).0 by {
            assert(cache.coins.contains_key(id));
        }
    }
}

/// A fresh cache knows no coin, no subscription and no peak.
pub proof fn law_a_fresh_cache_is_empty(id: Bytes32)
    ensures
        !CacheView::empty().coins.contains_key(id),
        !CacheView::empty().subscribed_coins.contains(id),
        !CacheView::empty().subscribed_puzzle_hashes.contains(id),
        CacheView::empty().peak is None,
{
}

/// The peak's height is the height of the peak.
pub proof fn law_the_peak_height_is_that_of_the_peak(cache: CacheView)
    ensures
        cache.peak is None <==> cache.peak_height() is None,
        cache.peak matches Some(peak) ==> cache.peak_height() == Some(peak.0),
{
}

/// A peak report that is not below the known peak, or that comes when none is known, becomes the
/// peak and drops exactly the coins created above it; a lower one changes nothing. No report touches
/// a subscription, or a coin that stays.
pub proof fn law_a_peak_report_becomes_the_peak_unless_it_is_lower(
    cache: CacheView,
    height: u32,
    header_hash: Bytes32,
    id: Bytes32,
)
    ensures
        ({
            let after = cache.advanced_to(height, header_hash);
            &&& after.subscribed_coins == cache.subscribed_coins
            &&& after.subscribed_puzzle_hashes == cache.subscribed_puzzle_hashes
            &&& (cache.peak matches Some(known) ==> height >= known.0) ==> {
                &&& after.peak == Some((height, header_hash))
                &&& after.coins.contains_key(id) <==> (cache.coins.contains_key(id) && (
                cache.coins[id].created_height matches Some(created) ==> created <= height))
                &&& after.coins.contains_key(id) ==> after.coins[id] == cache.coins[id]
            }
            &&& (cache.peak matches Some(known) && height < known.0) ==> after == cache
        }),
{
}

/// Subscribing to coins adds exactly those named, and touches nothing else.
pub proof fn law_tracking_adds_the_named_coins(cache: CacheView, ids: Seq<Bytes32>, id: Bytes32)
    ensures
        cache.coins_tracked(ids).subscribed_coins.contains(id) <==> (
        cache.subscribed_coins.contains(id) || ids.contains(id)),
        cache.coins_tracked(ids).subscribed_puzzle_hashes == cache.subscribed_puzzle_hashes,
        cache.coins_tracked(ids).coins == cache.coins,
        cache.coins_tracked(ids).peak == cache.peak,
{
}

/// Subscribing to puzzle hashes adds exactly those named, and touches nothing else.
pub proof fn law_tracking_adds_the_named_puzzle_hashes(
    cache: CacheView,
    hashes: Seq<Bytes32>,
    hash: Bytes32,
)
    ensures
        cache.puzzle_hashes_tracked(hashes).subscribed_puzzle_hashes.contains(hash) <==> (
        cache.subscribed_puzzle_hashes.contains(hash) || hashes.contains(hash)),
        cache.puzzle_hashes_tracked(hashes).subscribed_coins == cache.subscribed_coins,
        cache.puzzle_hashes_tracked(hashes).coins == cache.coins,
        cache.puzzle_hashes_tracked(hashes).peak == cache.peak,
{
}

/// Unsubscribing from coins takes out exactly those named, and touches nothing else.
pub proof fn law_untracking_removes_the_named_coins(
    cache: CacheView,
    ids: Seq<Bytes32>,
    id: Bytes32,
)
    ensures
        cache.coins_untracked(ids).subscribed_coins.contains(id) <==> (
        cache.subscribed_coins.contains(id) && !ids.contains(id)),
        cache.coins_untracked(ids).subscribed_puzzle_hashes == cache.subscribed_puzzle_hashes,
        cache.coins_untracked(ids).coins == cache.coins,
        cache.coins_untracked(ids).peak == cache.peak,
{
}

/// Two subscriptions, one after the other, are as one to all that either names; in either order.
pub proof fn law_subscriptions_add_up(cache: CacheView, a: Seq<Bytes32>, b: Seq<Bytes32>)
    ensures
        cache.coins_tracked(a).coins_tracked(b) == cache.coins_tracked(a + b),
        cache.coins_tracked(a).coins_tracked(b) == cache.coins_tracked(b).coins_tracked(a),
        cache.puzzle_hashes_tracked(a).puzzle_hashes_tracked(b) == cache.puzzle_hashes_tracked(a + b),
        cache.puzzle_hashes_tracked(a).puzzle_hashes_tracked(b) == cache.puzzle_hashes_tracked(
            b,
        ).puzzle_hashes_tracked(a),
        cache.coins_tracked(a).puzzle_hashes_tracked(b) == cache.puzzle_hashes_tracked(
            b,
        ).coins_tracked(a),
{
    assert((a + b).to_set() =~= a.to_set().union(b.to_set())) by {
        assert forall|x: Bytes32| (a + b).contains(x) <==> (a.contains(x) || b.contains(x)) by {
            if a.contains(x) {
                let j = choose|j: int| 0 <= j < a.len() && a[j] == x;
                assert((a + b)[j] == x);
            }
            if b.contains(x) {
                let j = choose|j: int| 0 <= j < b.len() && b[j] == x;
                assert((a + b)[a.len() + j] == x);
            }
        }
    }
    assert(cache.coins_tracked(a).coins_tracked(b) =~= cache.coins_tracked(a + b));
    assert(cache.coins_tracked(a).coins_tracked(b) =~= cache.coins_tracked(b).coins_tracked(a));
    assert(cache.puzzle_hashes_tracked(a).puzzle_hashes_tracked(b)
        =~= cache.puzzle_hashes_tracked(a + b));
    assert(cache.puzzle_hashes_tracked(a).puzzle_hashes_tracked(b)
        =~= cache.puzzle_hashes_tracked(b).puzzle_hashes_tracked(a));
}

/// Of several seeded states of one coin the last one that is not above the peak is what is cached.
pub proof fn law_the_last_seeded_state_is_cached(
    cache: CacheView,
    states: Seq<CoinState>,
    i: int,
)
    requires
        0 <= i < states.len(),
        cache.peak is Some && states[i].created_height is Some ==> states[i].created_height->0 <= (
        cache.peak->0).0,
        forall|j: int|
            i < j < states.len() && coin_id_of((#[trigger] states[j]).coin) == coin_id_of(
                states[i].coin,
            ) ==> cache.peak is Some && states[j].created_height is Some
                && states[j].created_height->0 > (cache.peak->0).0,
    ensures
        cache.seeded(states).coins.contains_key(coin_id_of(states[i].coin)),
        cache.seeded(states).coins[coin_id_of(states[i].coin)] == states[i],
    decreases states.len(),
{
    let shorter = states.drop_last();
    let last = states.len() - 1;
    lemma_seeding_keeps_frame(cache, shorter);
    if i < last {
        assert(shorter[i] == states[i]);
        assert forall|j: int|
            i < j < shorter.len() && coin_id_of((#[trigger] shorter[j]).coin) == coin_id_of(
                shorter[i].coin,
            ) implies cache.peak is Some && shorter[j].created_height is Some
            && shorter[j].created_height->0 > (cache.peak->0).0 by {
            assert(states[j] == shorter[j]);
        }
        law_the_last_seeded_state_is_cached(cache, shorter, i);
        assert(states.last() == states[last]);
    }
}

/// A coin of which every seeded state is above the peak, or of which there is none, is left alone;
/// and seeding touches neither the subscriptions nor the peak.
pub proof fn law_seeding_leaves_the_rest_alone(
    cache: CacheView,
    states: Seq<CoinState>,
    id: Bytes32,
)
    requires
        forall|j: int|
            0 <= j < states.len() && coin_id_of((#[trigger] states[j]).coin) == id ==> cache.peak
                is Some && states[j].created_height is Some && states[j].created_height->0 > (
            cache.peak->0).0,
    ensures
        cache.seeded(states).coins.contains_key(id) == cache.coins.contains_key(id),
        cache.coins.contains_key(id) ==> cache.seeded(states).coins[id] == cache.coins[id],
        cache.seeded(states).subscribed_coins == cache.subscribed_coins,
        cache.seeded(states).subscribed_puzzle_hashes == cache.subscribed_puzzle_hashes,
        cache.seeded(states).peak == cache.peak,
    decreases states.len(),
{
    lemma_seeding_keeps_frame(cache, states);
    if states.len() > 0 {
        let shorter = states.drop_last();
        lemma_seeding_keeps_frame(cache, shorter);
        assert forall|j: int|
            0 <= j < shorter.len() && coin_id_of((#[trigger] shorter[j]).coin) == id implies cache.peak
            is Some && shorter[j].created_height is Some && shorter[j].created_height->0 > (
        cache.peak->0).0 by {
            assert(states[j] == shorter[j]);
        }
        law_seeding_leaves_the_rest_alone(cache, shorter, id);
        assert(states.last() == states[states.len() - 1]);
    }
}

/// Seeding touches neither the subscriptions nor the peak.
proof fn lemma_seeding_keeps_frame(cache: CacheView, states: Seq<CoinState>)
    ensures
        cache.seeded(states).peak == cache.peak,
        cache.seeded(states).subscribed_coins == cache.subscribed_coins,
        cache.seeded(states).subscribed_puzzle_hashes == cache.subscribed_puzzle_hashes,
    decreases states.len(),
{
    if states.len() > 0 {
        lemma_seeding_keeps_frame(cache, states.drop_last());
    }
}

/// Where a cache holds no coin above its peak, it holds none after update items are added.
proof fn lemma_items_stay_below_the_peak(cache: CacheView, items: Seq<CoinState>, room: int)
    requires
        forall|id: Bytes32| #[trigger]
            cache.coins.contains_key(id) ==> !cache.above_peak(cache.coins[id]),
    ensures
        forall|id: Bytes32| #[trigger]
            cache.items_admitted(items, room).coins.contains_key(id) ==> !cache.above_peak(
                cache.items_admitted(items, room).coins[id],
            ),
    decreases items.len(),
{
    if items.len() > 0 {
        lemma_items_stay_below_the_peak(cache, items.drop_last(), room);
        lemma_items_keep_frame(cache, items.drop_last(), room);
    }
}

/// The last step of an update drops exactly the coins created above the peak that is left.
proof fn lemma_update_ends_with_a_sweep(
    cache: CacheView,
    items: Seq<CoinState>,
    height: u32,
    fork_height: u32,
    peak_hash: Bytes32,
    id: Bytes32,
)
    requires
        cache.valid(),
    ensures
        ({
            let found = cache.before_items(items, height, fork_height, peak_hash);
            let added = found.items_admitted(items, cache.max_cached_coins());
            let after = cache.updated(items, height, fork_height, peak_hash);
            &&& after.peak is Some
            &&& after.coins.contains_key(id) <==> (added.coins.contains_key(id) && (
            added.coins[id].created_height matches Some(created) ==> created <= (after.peak->0).0))
            &&& after.coins.contains_key(id) ==> after.coins[id] == added.coins[id]
        }),
{
    let found = cache.before_items(items, height, fork_height, peak_hash);
    lemma_found_frame(cache, items, height, fork_height, peak_hash);
    lemma_items_keep_frame(found, items, cache.max_cached_coins());
    assert forall|x: Bytes32| #[trigger] found.coins.contains_key(x) implies !found.above_peak(
        found.coins[x],
    ) by {
        assert(cache.coins.contains_key(x));
    }
    lemma_items_stay_below_the_peak(found, items, cache.max_cached_coins());
}

/// An update leaves both subscription sets as they were.
pub proof fn law_an_update_touches_no_subscription(
    cache: CacheView,
    items: Seq<CoinState>,
    height: u32,
    fork_height: u32,
    peak_hash: Bytes32,
)
    ensures
        cache.updated(items, height, fork_height, peak_hash).subscribed_coins
            == cache.subscribed_coins,
        cache.updated(items, height, fork_height, peak_hash).subscribed_puzzle_hashes
            == cache.subscribed_puzzle_hashes,
{
    crate::cache_laws::law_update_keeps_subscriptions(
        cache,
        items,
        height,
        fork_height,
        peak_hash,
    );
}

/// Where an update leaves the peak. Its tip becomes the peak if none was known, if the tip is not
/// below the known one, or if the update undoes for certain what was known: its fork lies below the
/// known peak, its tip does not lie below its fork, and some cached coin that is subscribed, by its
/// id or by its puzzle hash, and that no subscribed item is about, was created or spent above the
/// fork. Otherwise the peak stays.
pub proof fn law_where_an_update_leaves_the_peak(
    cache: CacheView,
    items: Seq<CoinState>,
    height: u32,
    fork_height: u32,
    peak_hash: Bytes32,
)
    requires
        cache.valid(),
    ensures
        ({
            let undone = exists|id: Bytes32|
                {
                    &&& #[trigger] cache.coins.contains_key(id)
                    &&& cache.subscribed_coins.contains(id)
                        || cache.subscribed_puzzle_hashes.contains(cache.coins[id].coin.puzzle_hash)
                    &&& (cache.coins[id].created_height is Some
                        && cache.coins[id].created_height->0 > fork_height) || (
                    cache.coins[id].spent_height is Some && cache.coins[id].spent_height->0
                        > fork_height)
                    &&& forall|i: int|
                        0 <= i < items.len() && coin_id_of((#[trigger] items[i]).coin) == id
                            ==> !cache.subscribed_coins.contains(id)
                            && !cache.subscribed_puzzle_hashes.contains(items[i].coin.puzzle_hash)
                };
            cache.updated(items, height, fork_height, peak_hash).peak == match cache.peak {
                Some(known) => if height >= known.0 || (fork_height < known.0 && height
                    >= fork_height && undone) {
                    Some((height, peak_hash))
                } else {
                    Some(known)
                },
                None => Some((height, peak_hash)),
            }
        }),
{
    let found = cache.before_items(items, height, fork_height, peak_hash);
    lemma_items_keep_frame(found, items, cache.max_cached_coins());
    assert forall|id: Bytes32| #[trigger] cache.undoes(items, fork_height, id) implies ({
        &&& cache.coins.contains_key(id)
        &&& cache.subscribed_coins.contains(id) || cache.subscribed_puzzle_hashes.contains(
            cache.coins[id].coin.puzzle_hash,
        )
        &&& (cache.coins[id].created_height is Some && cache.coins[id].created_height->0
            > fork_height) || (cache.coins[id].spent_height is Some
            && cache.coins[id].spent_height->0 > fork_height)
        &&& forall|i: int|
            0 <= i < items.len() && coin_id_of((#[trigger] items[i]).coin) == id
                ==> !cache.subscribed_coins.contains(id)
                && !cache.subscribed_puzzle_hashes.contains(items[i].coin.puzzle_hash)
    }) by {
        assert(cache.coins[id].id() == id);
        assert forall|i: int|
            0 <= i < items.len() && coin_id_of((#[trigger] items[i]).coin)
                == id implies !cache.subscribed_coins.contains(id)
            && !cache.subscribed_puzzle_hashes.contains(items[i].coin.puzzle_hash) by {
            assert(!(cache.subscribes(items[i]) && items[i].id() == id));
        }
    }
    assert forall|id: Bytes32|
        {
            &&& #[trigger] cache.coins.contains_key(id)
            &&& cache.subscribed_coins.contains(id) || cache.subscribed_puzzle_hashes.contains(
                cache.coins[id].coin.puzzle_hash,
            )
            &&& (cache.coins[id].created_height is Some && cache.coins[id].created_height->0
                > fork_height) || (cache.coins[id].spent_height is Some
                && cache.coins[id].spent_height->0 > fork_height)
            &&& forall|i: int|
                0 <= i < items.len() && coin_id_of((#[trigger] items[i]).coin) == id
                    ==> !cache.subscribed_coins.contains(id)
                    && !cache.subscribed_puzzle_hashes.contains(items[i].coin.puzzle_hash)
        } implies cache.undoes(items, fork_height, id) by {
        assert(cache.coins[id].id() == id);
        assert(!cache.reasserts(items, id));
    }
}

/// What becomes of a cached coin that no subscribed item of an update is about. It stays exactly if
/// it was not created above the fork nor above the peak that is left; it keeps its coin and its
/// created height; and it is unspent if it was spent above the fork, and spent as before otherwise.
/// A coin that was not cached is not cached.
pub proof fn law_the_fork_decides_about_coins_without_an_item(
    cache: CacheView,
    items: Seq<CoinState>,
    height: u32,
    fork_height: u32,
    peak_hash: Bytes32,
    id: Bytes32,
)
    requires
        cache.valid(),
        forall|i: int|
            0 <= i < items.len() && coin_id_of((#[trigger] items[i]).coin) == id
                ==> !cache.subscribed_coins.contains(id)
                && !cache.subscribed_puzzle_hashes.contains(items[i].coin.puzzle_hash),
    ensures
        ({
            let before = cache.coins[id];
            let after = cache.updated(items, height, fork_height, peak_hash);
            &&& after.peak is Some
            &&& after.coins.contains_key(id) <==> (cache.coins.contains_key(id) && (
            before.created_height is Some ==> before.created_height->0 <= fork_height
                && before.created_height->0 <= (after.peak->0).0))
            &&& after.coins.contains_key(id) ==> {
                &&& after.coins[id].coin == before.coin
                &&& after.coins[id].created_height == before.created_height
                &&& before.spent_height is Some && before.spent_height->0 > fork_height
                    ==> after.coins[id].spent_height is None
                &&& before.spent_height is None || before.spent_height->0 <= fork_height
                    ==> after.coins[id].spent_height == before.spent_height
            }
        }),
{
    let found = cache.before_items(items, height, fork_height, peak_hash);
    assert(!cache.reasserts(items, id));
    lemma_found_frame(cache, items, height, fork_height, peak_hash);
    assert(!found.reasserts(items, id));
    lemma_items_leave_others(found, items, cache.max_cached_coins(), id);
    lemma_update_ends_with_a_sweep(cache, items, height, fork_height, peak_hash, id);
}

/// Among update items `items[i]` is subscribed, about coin `id` and not above the peak, and every
/// later subscribed item about that coin is above it.
spec fn last_taken(cache: CacheView, items: Seq<CoinState>, i: int) -> bool {
    &&& 0 <= i < items.len()
    &&& cache.subscribes(items[i])
    &&& !cache.above_peak(items[i])
    &&& forall|j: int|
        i < j < items.len() && cache.subscribes(#[trigger] items[j]) && items[j].id()
            == items[i].id() ==> cache.above_peak(items[j])
}

/// What adding update items makes of the coin of the last item that is taken.
proof fn lemma_last_taken(cache: CacheView, items: Seq<CoinState>, room: int, i: int)
    requires
        cache.coins.dom().finite(),
        last_taken(cache, items, i),
    ensures
        ({
            let id = items[i].id();
            let added = cache.items_admitted(items, room);
            &&& added.coins.contains_key(id) ==> added.coins[id] == items[i]
            &&& cache.coins.contains_key(id) ==> added.coins.contains_key(id)
            &&& cache.coins.dom().len() + items.len() <= room ==> added.coins.contains_key(id)
            &&& !added.coins.contains_key(id) ==> added.coins.dom().len() >= room
                && cache.items_overflowing(items, room) > 0
        }),
    decreases items.len(),
{
    let shorter = items.drop_last();
    let last = items.len() - 1;
    assert(items.last() == items[last]);
    lemma_items_keep_frame(cache, shorter, room);
    lemma_items_room(cache, shorter, room);
    lemma_items_room(cache.items_admitted(shorter, room), seq![items[last]], room);
    if i < last {
        assert(shorter[i] == items[i]);
        assert(forall|j: int| 0 <= j < last ==> #[trigger] shorter[j] == items[j]);
        lemma_last_taken(cache, shorter, room, i);
        let mid = cache.items_admitted(shorter, room);
        let added = cache.items_admitted(items, room);
        assert(mid.coins.dom().subset_of(added.coins.dom()));
        assert(added.coins.dom().finite()) by {
            lemma_items_room(cache, items, room);
        }
        vstd::set_lib::lemma_len_subset(mid.coins.dom(), added.coins.dom());
        assert(cache.subscribes(items[last]) && items[last].id() == items[i].id()
            ==> cache.above_peak(items[last]));
    }
}

/// The last item about a coin that an update offers and the cache takes is what the coin is cached
/// as afterwards: if the coin is subscribed, or its puzzle hash is, whatever else is subscribed; if
/// the item was not created above the peak that is left; and if the coin was cached already, or the
/// items fit in the room that is left, which is one coin for each subscribed coin and ten thousand
/// for each subscribed puzzle hash. Items created above both the known peak and the update's tip
/// are not taken.
pub proof fn law_the_last_item_about_a_subscribed_coin_is_cached(
    cache: CacheView,
    items: Seq<CoinState>,
    height: u32,
    fork_height: u32,
    peak_hash: Bytes32,
    i: int,
)
    requires
        cache.valid(),
        0 <= i < items.len(),
        cache.subscribed_coins.contains(coin_id_of(items[i].coin))
            || cache.subscribed_puzzle_hashes.contains(items[i].coin.puzzle_hash),
        items[i].created_height is Some ==> items[i].created_height->0 <= (cache.updated(
            items,
            height,
            fork_height,
            peak_hash,
        ).peak->0).0,
        forall|j: int|
            i < j < items.len() && coin_id_of((#[trigger] items[j]).coin) == coin_id_of(
                items[i].coin,
            ) ==> cache.peak is Some && items[j].created_height is Some
                && items[j].created_height->0 > (cache.peak->0).0 && items[j].created_height->0
                > height,
        cache.coins.contains_key(coin_id_of(items[i].coin)) || (cache.coins.dom().len()
            + items.len() <= cache.subscribed_coins.len() + 10_000
            * cache.subscribed_puzzle_hashes.len() && cache.coins.dom().len() + items.len()
            <= usize::MAX),
    ensures
        cache.updated(items, height, fork_height, peak_hash).coins.contains_key(
            coin_id_of(items[i].coin),
        ),
        cache.updated(items, height, fork_height, peak_hash).coins[coin_id_of(items[i].coin)]
            == items[i],
{
    let id = coin_id_of(items[i].coin);
    let found = cache.before_items(items, height, fork_height, peak_hash);
    lemma_found_frame(cache, items, height, fork_height, peak_hash);
    lemma_items_keep_frame(found, items, cache.max_cached_coins());
    assert(found.subscribes(items[i]));
    assert(cache.reasserts(items, id));
    assert forall|j: int|
        i < j < items.len() && found.subscribes(#[trigger] items[j]) && items[j].id()
            == items[i].id() implies found.above_peak(items[j]) by {
        assert(coin_id_of(items[j].coin) == coin_id_of(items[i].coin));
    }
    lemma_update_ends_with_a_sweep(cache, items, height, fork_height, peak_hash, id);
    lemma_last_taken(found, items, cache.max_cached_coins(), i);
}

/// Whatever is cached of a coin after an update, if an item about it was taken, is the last one that
/// was; and if that item was created above the peak that is left, nothing is.
pub proof fn law_nothing_older_than_the_last_item_is_cached(
    cache: CacheView,
    items: Seq<CoinState>,
    height: u32,
    fork_height: u32,
    peak_hash: Bytes32,
    i: int,
)
    requires
        cache.valid(),
        0 <= i < items.len(),
        cache.subscribed_coins.contains(coin_id_of(items[i].coin))
            || cache.subscribed_puzzle_hashes.contains(items[i].coin.puzzle_hash),
        cache.peak is Some && items[i].created_height is Some ==> items[i].created_height->0 <= (
        cache.peak->0).0 || items[i].created_height->0 <= height,
        forall|j: int|
            i < j < items.len() && coin_id_of((#[trigger] items[j]).coin) == coin_id_of(
                items[i].coin,
            ) ==> cache.peak is Some && items[j].created_height is Some
                && items[j].created_height->0 > (cache.peak->0).0 && items[j].created_height->0
                > height,
    ensures
        ({
            let id = coin_id_of(items[i].coin);
            let after = cache.updated(items, height, fork_height, peak_hash);
            &&& after.coins.contains_key(id) ==> after.coins[id] == items[i]
            &&& items[i].created_height is Some && items[i].created_height->0 > (after.peak->0).0
                ==> !after.coins.contains_key(id)
        }),
{
    let id = coin_id_of(items[i].coin);
    let found = cache.before_items(items, height, fork_height, peak_hash);
    lemma_found_frame(cache, items, height, fork_height, peak_hash);
    lemma_items_keep_frame(found, items, cache.max_cached_coins());
    assert(found.subscribes(items[i]));
    assert forall|j: int|
        i < j < items.len() && found.subscribes(#[trigger] items[j]) && items[j].id()
            == items[i].id() implies found.above_peak(items[j]) by {
        assert(coin_id_of(items[j].coin) == coin_id_of(items[i].coin));
    }
    lemma_update_ends_with_a_sweep(cache, items, height, fork_height, peak_hash, id);
    lemma_last_taken(found, items, cache.max_cached_coins(), i);
}

/// Where every subscribed item about a coin was created above both the known peak and the update's
/// tip, none is taken: the coin stays as it was, unless it is above the peak that is left.
pub proof fn law_items_above_every_peak_change_nothing(
    cache: CacheView,
    items: Seq<CoinState>,
    height: u32,
    fork_height: u32,
    peak_hash: Bytes32,
    i: int,
)
    requires
        cache.valid(),
        cache.peak is Some,
        0 <= i < items.len(),
        cache.subscribed_coins.contains(coin_id_of(items[i].coin))
            || cache.subscribed_puzzle_hashes.contains(items[i].coin.puzzle_hash),
        forall|j: int|
            0 <= j < items.len() && coin_id_of((#[trigger] items[j]).coin) == coin_id_of(
                items[i].coin,
            ) ==> items[j].created_height is Some && items[j].created_height->0 > (
            cache.peak->0).0 && items[j].created_height->0 > height,
    ensures
        ({
            let id = coin_id_of(items[i].coin);
            let before = cache.coins[id];
            let after = cache.updated(items, height, fork_height, peak_hash);
            &&& after.coins.contains_key(id) <==> (cache.coins.contains_key(id) && (
            before.created_height is Some ==> before.created_height->0 <= (after.peak->0).0))
            &&& after.coins.contains_key(id) ==> after.coins[id] == before
        }),
{
    let id = coin_id_of(items[i].coin);
    let found = cache.before_items(items, height, fork_height, peak_hash);
    lemma_found_frame(cache, items, height, fork_height, peak_hash);
    lemma_update_ends_with_a_sweep(cache, items, height, fork_height, peak_hash, id);
    assert(cache.subscribes(items[i]) && items[i].id() == id);
    assert(cache.reasserts(items, id));
    assert forall|j: int|
        0 <= j < items.len() && (#[trigger] items[j]).id() == id implies found.above_peak(
        items[j],
    ) by {
        assert(coin_id_of(items[j].coin) == id);
    }
    lemma_refused_items(found, items, cache.max_cached_coins(), id);
}

/// A coin keeps its state while update items are added if every one about it is above the peak.
proof fn lemma_refused_items(cache: CacheView, items: Seq<CoinState>, room: int, id: Bytes32)
    requires
        forall|j: int|
            0 <= j < items.len() && (#[trigger] items[j]).id() == id ==> cache.above_peak(items[j]),
    ensures
        cache.items_admitted(items, room).coins.contains_key(id) == cache.coins.contains_key(id),
        cache.coins.contains_key(id) ==> cache.items_admitted(items, room).coins[id]
            == cache.coins[id],
    decreases items.len(),
{
    if items.len() > 0 {
        let shorter = items.drop_last();
        assert forall|j: int|
            0 <= j < shorter.len() && (#[trigger] shorter[j]).id() == id implies cache.above_peak(
            shorter[j],
        ) by {
            assert(items[j] == shorter[j]);
        }
        lemma_refused_items(cache, shorter, room, id);
        lemma_items_keep_frame(cache, shorter, room);
        assert(items.last() == items[items.len() - 1]);
    }
}

/// An item is dropped for want of room only where there is none: if settling the peak sweeps nothing,
/// because the peak was known and is not lowered or because no coin and no item is above it, and the
/// coin of an item that the update takes is not cached afterwards, at least as many coins are as the
/// subscriptions make room for, and the update reports that it dropped items.
pub proof fn law_items_are_dropped_only_when_the_cache_is_full(
    cache: CacheView,
    items: Seq<CoinState>,
    height: u32,
    fork_height: u32,
    peak_hash: Bytes32,
    i: int,
)
    requires
        cache.valid(),
        (cache.peak is Some && (cache.updated(items, height, fork_height, peak_hash).peak->0).0 >= (
        cache.peak->0).0) || {
            let left = (cache.updated(items, height, fork_height, peak_hash).peak->0).0;
            &&& forall|id: Bytes32| #[trigger]
                cache.coins.contains_key(id) && cache.coins[id].created_height is Some
                    ==> cache.coins[id].created_height->0 <= left
            &&& forall|j: int|
                0 <= j < items.len() && (#[trigger] items[j]).created_height is Some
                    ==> items[j].created_height->0 <= left
        },
        0 <= i < items.len(),
        cache.subscribed_coins.contains(coin_id_of(items[i].coin))
            || cache.subscribed_puzzle_hashes.contains(items[i].coin.puzzle_hash),
        items[i].created_height is Some ==> items[i].created_height->0 <= (cache.updated(
            items,
            height,
            fork_height,
            peak_hash,
        ).peak->0).0,
        forall|j: int|
            i < j < items.len() ==> coin_id_of((#[trigger] items[j]).coin) != coin_id_of(
                items[i].coin,
            ),
        !cache.updated(items, height, fork_height, peak_hash).coins.contains_key(
            coin_id_of(items[i].coin),
        ),
    ensures
        cache.updated(items, height, fork_height, peak_hash).coins.dom().len()
            >= cache.subscribed_coins.len() + 10_000 * cache.subscribed_puzzle_hashes.len()
            || cache.updated(items, height, fork_height, peak_hash).coins.dom().len() >= usize::MAX,
        cache.overflow_of_update(items, height, fork_height, peak_hash) > 0,
{
    let id = coin_id_of(items[i].coin);
    let found = cache.before_items(items, height, fork_height, peak_hash);
    let added = found.items_admitted(items, cache.max_cached_coins());
    let after = cache.updated(items, height, fork_height, peak_hash);
    lemma_found_frame(cache, items, height, fork_height, peak_hash);
    lemma_items_keep_frame(found, items, cache.max_cached_coins());
    assert(found.subscribes(items[i]));
    assert forall|j: int|
        i < j < items.len() && found.subscribes(#[trigger] items[j]) && items[j].id()
            == items[i].id() implies found.above_peak(items[j]) by {
        assert(coin_id_of(items[j].coin) != coin_id_of(items[i].coin));
    }
    assert forall|x: Bytes32| #[trigger] found.coins.contains_key(x) implies !found.above_peak(
        found.coins[x],
    ) by {
        assert(cache.coins.contains_key(x));
    }
    lemma_items_stay_below_the_peak(found, items, cache.max_cached_coins());
    lemma_update_ends_with_a_sweep(cache, items, height, fork_height, peak_hash, id);
    assert(!found.above_peak(items[i]));
    lemma_last_taken(found, items, cache.max_cached_coins(), i);
    assert(after.coins =~= added.coins) by {
        assert forall|x: Bytes32| after.coins.contains_key(x) <==> added.coins.contains_key(x) by {
            lemma_update_ends_with_a_sweep(cache, items, height, fork_height, peak_hash, x);
            if added.coins.contains_key(x) {
                lemma_items_origin(found, items, cache.max_cached_coins(), x);
                if found.coins.contains_key(x) {
                    assert(cache.coins.contains_key(x));
                    assert(found.coins[x].created_height == cache.coins[x].created_height);
                }
            }
        }
        assert forall|x: Bytes32| after.coins.contains_key(x) implies after.coins[x]
            == added.coins[x] by {
            lemma_update_ends_with_a_sweep(cache, items, height, fork_height, peak_hash, x);
        }
    }
}

/// An update never grows the cache past one coin for each subscribed coin and ten thousand for each
/// subscribed puzzle hash, unless it held more before, and then it holds no more than that.
pub proof fn law_an_update_stays_within_the_room(
    cache: CacheView,
    items: Seq<CoinState>,
    height: u32,
    fork_height: u32,
    peak_hash: Bytes32,
)
    requires
        cache.valid(),
    ensures
        cache.updated(items, height, fork_height, peak_hash).coins.dom().finite(),
        cache.updated(items, height, fork_height, peak_hash).coins.dom().len()
            <= cache.subscribed_coins.len() + 10_000 * cache.subscribed_puzzle_hashes.len()
            || cache.updated(items, height, fork_height, peak_hash).coins.dom().len()
            <= cache.coins.dom().len(),
{
    crate::cache_laws::law_update_is_bounded(cache, items, height, fork_height, peak_hash);
}

/// An item that is subscribed neither by its coin nor by its puzzle hash has no effect at all: an
/// update with it is as the update without it.
pub proof fn law_an_unsolicited_item_has_no_effect(
    cache: CacheView,
    items: Seq<CoinState>,
    height: u32,
    fork_height: u32,
    peak_hash: Bytes32,
    extra: CoinState,
)
    requires
        !cache.subscribed_coins.contains(coin_id_of(extra.coin)),
        !cache.subscribed_puzzle_hashes.contains(extra.coin.puzzle_hash),
    ensures
        cache.updated(items.push(extra), height, fork_height, peak_hash) == cache.updated(
            items,
            height,
            fork_height,
            peak_hash,
        ),
        cache.overflow_of_update(items.push(extra), height, fork_height, peak_hash)
            == cache.overflow_of_update(items, height, fork_height, peak_hash),
{
    let longer = items.push(extra);
    assert(longer.drop_last() =~= items);
    assert forall|id: Bytes32| cache.reasserts(longer, id) == cache.reasserts(items, id) by {
        if cache.reasserts(items, id) {
            let j = choose|j: int|
                0 <= j < items.len() && cache.subscribes(#[trigger] items[j]) && items[j].id()
                    == id;
            assert(cache.subscribes(longer[j]) && longer[j].id() == id);
        }
        if cache.reasserts(longer, id) {
            let j = choose|j: int|
                0 <= j < longer.len() && cache.subscribes(#[trigger] longer[j]) && longer[j].id()
                    == id;
            assert(j < items.len());
            assert(cache.subscribes(items[j]) && items[j].id() == id);
        }
    }
    assert(cache.rolled_back(longer, fork_height) =~= cache.rolled_back(items, fork_height));
    assert(cache.authoritative_reorg(longer, height, fork_height) == cache.authoritative_reorg(
        items,
        height,
        fork_height,
    )) by {
        assert forall|id: Bytes32| cache.undoes(longer, fork_height, id) == cache.undoes(
            items,
            fork_height,
            id,
        ) by {}
        if exists|id: Bytes32| #[trigger] cache.undoes(items, fork_height, id) {
            let id = choose|id: Bytes32| #[trigger] cache.undoes(items, fork_height, id);
            assert(cache.undoes(longer, fork_height, id));
        }
        if exists|id: Bytes32| #[trigger] cache.undoes(longer, fork_height, id) {
            let id = choose|id: Bytes32| #[trigger] cache.undoes(longer, fork_height, id);
            assert(cache.undoes(items, fork_height, id));
        }
    }
    let found = cache.before_items(items, height, fork_height, peak_hash);
    assert(cache.before_items(longer, height, fork_height, peak_hash) == found);
    lemma_found_frame(cache, items, height, fork_height, peak_hash);
    lemma_items_keep_frame(found, items, cache.max_cached_coins());
}

/// Whatever an update drops for want of room it reports. It reports a drop if the coin of an item
/// that it takes and that is not above the peak that is left is not cached afterwards; it reports
/// none if the items fit in the room that is left; and it never reports more than its items.
pub proof fn law_drops_are_reported(
    cache: CacheView,
    items: Seq<CoinState>,
    height: u32,
    fork_height: u32,
    peak_hash: Bytes32,
    i: int,
)
    requires
        cache.valid(),
        0 <= i < items.len(),
    ensures
        ({
            let id = coin_id_of(items[i].coin);
            let after = cache.updated(items, height, fork_height, peak_hash);
            let overflow = cache.overflow_of_update(items, height, fork_height, peak_hash);
            &&& overflow <= items.len()
            &&& cache.coins.dom().len() + items.len() <= cache.subscribed_coins.len() + 10_000
                * cache.subscribed_puzzle_hashes.len() && cache.coins.dom().len() + items.len()
                <= usize::MAX ==> overflow == 0
            &&& {
                &&& cache.subscribed_coins.contains(id) || cache.subscribed_puzzle_hashes.contains(
                    items[i].coin.puzzle_hash,
                )
                &&& items[i].created_height is Some ==> items[i].created_height->0 <= (
                after.peak->0).0
                &&& forall|j: int|
                    i < j < items.len() ==> coin_id_of((#[trigger] items[j]).coin) != id
                &&& !after.coins.contains_key(id)
            } ==> overflow > 0
        }),
{
    let id = coin_id_of(items[i].coin);
    let found = cache.before_items(items, height, fork_height, peak_hash);
    let after = cache.updated(items, height, fork_height, peak_hash);
    lemma_found_frame(cache, items, height, fork_height, peak_hash);
    lemma_items_keep_frame(found, items, cache.max_cached_coins());
    lemma_overflow_bounds(found, items, cache.max_cached_coins());
    lemma_update_ends_with_a_sweep(cache, items, height, fork_height, peak_hash, id);
    if (cache.subscribed_coins.contains(id) || cache.subscribed_puzzle_hashes.contains(
        items[i].coin.puzzle_hash,
    )) && (items[i].created_height is Some ==> items[i].created_height->0 <= (after.peak->0).0) && (
    forall|j: int| i < j < items.len() ==> coin_id_of((#[trigger] items[j]).coin) != id) {
        assert(found.subscribes(items[i]));
        assert forall|j: int|
            i < j < items.len() && found.subscribes(#[trigger] items[j]) && items[j].id()
                == items[i].id() implies found.above_peak(items[j]) by {
            assert(coin_id_of(items[j].coin) != id);
        }
        lemma_last_taken(found, items, cache.max_cached_coins(), i);
    }
}

/// No more items are dropped for want of room than there are, and none if all of them fit.
proof fn lemma_overflow_bounds(cache: CacheView, items: Seq<CoinState>, room: int)
    requires
        cache.coins.dom().finite(),
    ensures
        cache.items_overflowing(items, room) <= items.len(),
        cache.coins.dom().len() + items.len() <= room ==> cache.items_overflowing(items, room) == 0,
    decreases items.len(),
{
    if items.len() > 0 {
        lemma_overflow_bounds(cache, items.drop_last(), room);
        lemma_items_room(cache, items.drop_last(), room);
    }
}

/// Every item is accounted for. Where an update goes forward, undoes nothing, and brings as many new
/// coins as it has items, all subscribed and none above its tip, what it adds and what it reports
/// as dropped make up its items; and it reports a drop only if the cache is then full.
pub proof fn law_every_item_is_cached_or_counted(
    cache: CacheView,
    items: Seq<CoinState>,
    height: u32,
    fork_height: u32,
    peak_hash: Bytes32,
)
    requires
        cache.valid(),
        cache.peak is Some ==> height >= (cache.peak->0).0,
        forall|id: Bytes32| #[trigger]
            cache.coins.contains_key(id) ==> (cache.coins[id].created_height is Some
                ==> cache.coins[id].created_height->0 <= fork_height
                && cache.coins[id].created_height->0 <= height) && (
            cache.coins[id].spent_height is Some ==> cache.coins[id].spent_height->0
                <= fork_height),
        forall|i: int|
            0 <= i < items.len() ==> {
                &&& cache.subscribed_coins.contains(coin_id_of((#[trigger] items[i]).coin))
                    || cache.subscribed_puzzle_hashes.contains(items[i].coin.puzzle_hash)
                &&& !cache.coins.contains_key(coin_id_of(items[i].coin))
                &&& items[i].created_height is Some ==> items[i].created_height->0 <= height
            },
        forall|i: int, j: int|
            0 <= i < j < items.len() ==> coin_id_of((#[trigger] items[i]).coin) != coin_id_of(
                (#[trigger] items[j]).coin,
            ),
    ensures
        ({
            let after = cache.updated(items, height, fork_height, peak_hash);
            let overflow = cache.overflow_of_update(items, height, fork_height, peak_hash);
            &&& after.coins.dom().len() + overflow == cache.coins.dom().len() + items.len()
            &&& overflow > 0 ==> after.coins.dom().len() >= cache.subscribed_coins.len() + 10_000
                * cache.subscribed_puzzle_hashes.len() || after.coins.dom().len() >= usize::MAX
        }),
{
    let found = cache.before_items(items, height, fork_height, peak_hash);
    let room = cache.max_cached_coins();
    let added = found.items_admitted(items, room);
    let after = cache.updated(items, height, fork_height, peak_hash);
    lemma_found_frame(cache, items, height, fork_height, peak_hash);
    lemma_items_keep_frame(found, items, room);
    assert(found.coins =~= cache.coins);
    assert forall|x: Bytes32| #[trigger] found.coins.contains_key(x) implies !found.above_peak(
        found.coins[x],
    ) by {
        assert(cache.coins.contains_key(x));
    }
    assert forall|i: int| 0 <= i < items.len() implies found.subscribes(#[trigger] items[i])
        && !found.coins.contains_key(items[i].id()) && !found.above_peak(items[i]) by {
        assert(coin_id_of(items[i].coin) == items[i].id());
    }
    assert forall|i: int, j: int| 0 <= i < j < items.len() implies (#[trigger] items[i]).id() != (
    #[trigger] items[j]).id() by {
        assert(coin_id_of(items[i].coin) != coin_id_of(items[j].coin));
    }
    lemma_new_items_count(found, items, room);
    lemma_items_stay_below_the_peak(found, items, room);
    assert(after.coins =~= added.coins) by {
        assert forall|x: Bytes32| after.coins.contains_key(x) <==> added.coins.contains_key(x) by {
            lemma_update_ends_with_a_sweep(cache, items, height, fork_height, peak_hash, x);
            if added.coins.contains_key(x) {
                lemma_items_origin(found, items, room, x);
                assert(after.peak == Some((height, peak_hash)));
            }
        }
        assert forall|x: Bytes32| after.coins.contains_key(x) implies after.coins[x]
            == added.coins[x] by {
            lemma_update_ends_with_a_sweep(cache, items, height, fork_height, peak_hash, x);
        }
    }
}

/// Adding subscribed items about new and different coins below the peak adds or drops each.
proof fn lemma_new_items_count(cache: CacheView, items: Seq<CoinState>, room: int)
    requires
        cache.coins.dom().finite(),
        forall|i: int|
            0 <= i < items.len() ==> cache.subscribes(#[trigger] items[i])
                && !cache.coins.contains_key(items[i].id()) && !cache.above_peak(items[i]),
        forall|i: int, j: int|
            0 <= i < j < items.len() ==> (#[trigger] items[i]).id() != (#[trigger] items[j]).id(),
    ensures
        ({
            let added = cache.items_admitted(items, room);
            let overflow = cache.items_overflowing(items, room);
            &&& added.coins.dom().finite()
            &&& added.coins.dom().len() + overflow == cache.coins.dom().len() + items.len()
            &&& overflow > 0 ==> added.coins.dom().len() >= room
        }),
    decreases items.len(),
{
    if items.len() > 0 {
        let shorter = items.drop_last();
        let last = items.len() - 1;
        assert(items.last() == items[last]);
        assert forall|i: int| 0 <= i < shorter.len() implies cache.subscribes(#[trigger] shorter[i])
            && !cache.coins.contains_key(shorter[i].id()) && !cache.above_peak(shorter[i]) by {
            assert(shorter[i] == items[i]);
        }
        assert forall|i: int, j: int| 0 <= i < j < shorter.len() implies (
        #[trigger] shorter[i]).id() != (#[trigger] shorter[j]).id() by {
            assert(items[i].id() != items[j].id());
        }
        lemma_new_items_count(cache, shorter, room);
        lemma_items_keep_frame(cache, shorter, room);
        let mid = cache.items_admitted(shorter, room);
        assert(!mid.coins.contains_key(items[last].id())) by {
            assert forall|j: int|
                0 <= j < shorter.len() implies (#[trigger] shorter[j]).id() != items[last].id() by {
                assert(items[j].id() != items[last].id());
            }
            assert(!cache.reasserts(shorter, items[last].id()));
            lemma_items_leave_others(cache, shorter, room, items[last].id());
        }
    }
}

} // verus!
