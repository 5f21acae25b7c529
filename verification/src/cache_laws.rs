//! What holds of the subscription cache across its operations.

use vstd::prelude::*;

use crate::bytes::Bytes32;
use crate::cache::{rolled_back, CacheView};
use crate::protocol::CoinState;

verus! {

/// `items[i]` is the last of the items that is subscribed and about its coin.
pub open spec fn is_last_word(cache: CacheView, items: Seq<CoinState>, i: int) -> bool {
    &&& 0 <= i < items.len()
    &&& cache.subscribes(items[i])
    &&& forall|j: int|
        i < j < items.len() ==> !(cache.subscribes(#[trigger] items[j]) && items[j].id()
            == items[i].id())
}

/// Adding update items touches neither the peak nor the subscriptions, so what is subscribed stays
/// the same throughout.
pub(crate) proof fn lemma_items_keep_frame(cache: CacheView, items: Seq<CoinState>, room: int)
    ensures
        cache.items_admitted(items, room).peak == cache.peak,
        cache.items_admitted(items, room).subscribed_coins == cache.subscribed_coins,
        cache.items_admitted(items, room).subscribed_puzzle_hashes
            == cache.subscribed_puzzle_hashes,
    decreases items.len(),
{
    if items.len() > 0 {
        lemma_items_keep_frame(cache, items.drop_last(), room);
    }
}

/// A coin that no subscribed item is about keeps its state while update items are added.
pub(crate) proof fn lemma_items_leave_others(cache: CacheView, items: Seq<CoinState>, room: int, id: Bytes32)
    requires
        !cache.reasserts(items, id),
    ensures
        cache.items_admitted(items, room).coins.contains_key(id) == cache.coins.contains_key(id),
        cache.coins.contains_key(id) ==> cache.items_admitted(items, room).coins[id]
            == cache.coins[id],
    decreases items.len(),
{
    if items.len() > 0 {
        let shorter = items.drop_last();
        assert(!cache.reasserts(shorter, id)) by {
            if cache.reasserts(shorter, id) {
                let j = choose|j: int|
                    0 <= j < shorter.len() && cache.subscribes(#[trigger] shorter[j])
                        && shorter[j].id() == id;
                assert(cache.subscribes(items[j]) && items[j].id() == id);
            }
        }
        lemma_items_leave_others(cache, shorter, room, id);
        lemma_items_keep_frame(cache, shorter, room);
        assert(items.last() == items[items.len() - 1]);
    }
}

/// Whatever is cached after update items are added was cached before, or is one of the subscribed
/// items.
pub(crate) proof fn lemma_items_origin(cache: CacheView, items: Seq<CoinState>, room: int, id: Bytes32)
    requires
        cache.items_admitted(items, room).coins.contains_key(id),
    ensures
        (cache.coins.contains_key(id) && cache.items_admitted(items, room).coins[id]
            == cache.coins[id]) || exists|i: int|
            0 <= i < items.len() && cache.subscribes(#[trigger] items[i]) && items[i].id() == id
                && cache.items_admitted(items, room).coins[id] == items[i],
    decreases items.len(),
{
    if items.len() > 0 {
        let shorter = items.drop_last();
        let mid = cache.items_admitted(shorter, room);
        let after = cache.items_admitted(items, room);
        lemma_items_keep_frame(cache, shorter, room);
        let last = items.len() - 1;
        assert(items.last() == items[last]);
        if mid.coins.contains_key(id) && after.coins[id] == mid.coins[id] {
            lemma_items_origin(cache, shorter, room, id);
            if !(cache.coins.contains_key(id) && mid.coins[id] == cache.coins[id]) {
                let j = choose|j: int|
                    0 <= j < shorter.len() && cache.subscribes(#[trigger] shorter[j])
                        && shorter[j].id() == id && mid.coins[id] == shorter[j];
                assert(cache.subscribes(items[j]) && items[j].id() == id && after.coins[id]
                    == items[j]);
            }
        } else {
            assert(cache.subscribes(items[last]) && items[last].id() == id && after.coins[id]
                == items[last]);
        }
    }
}

/// Adding update items only ever adds coins, and adds new ones only while there is room.
pub(crate) proof fn lemma_items_room(cache: CacheView, items: Seq<CoinState>, room: int)
    requires
        cache.coins.dom().finite(),
    ensures
        cache.coins.dom().subset_of(cache.items_admitted(items, room).coins.dom()),
        cache.items_admitted(items, room).coins.dom().finite(),
        cache.items_admitted(items, room).coins.dom().len() <= cache.coins.dom().len()
            + items.len(),
        cache.items_admitted(items, room).coins.dom().len() <= room
            || cache.items_admitted(items, room).coins.dom().len() <= cache.coins.dom().len(),
    decreases items.len(),
{
    if items.len() > 0 {
        lemma_items_room(cache, items.drop_last(), room);
    }
}

/// The last subscribed item about a coin is what is cached for it, if it is not above the peak and
/// the coin was cached already or the items fit in the room that is left.
pub(crate) proof fn lemma_items_last_word(cache: CacheView, items: Seq<CoinState>, room: int, i: int)
    requires
        cache.coins.dom().finite(),
        is_last_word(cache, items, i),
        !cache.above_peak(items[i]),
        cache.coins.contains_key(items[i].id()) || cache.coins.dom().len() + items.len() <= room,
    ensures
        cache.items_admitted(items, room).coins.contains_key(items[i].id()),
        cache.items_admitted(items, room).coins[items[i].id()] == items[i],
    decreases items.len(),
{
    let shorter = items.drop_last();
    let last = items.len() - 1;
    assert(items.last() == items[last]);
    lemma_items_keep_frame(cache, shorter, room);
    lemma_items_room(cache, shorter, room);
    if i < last {
        assert(shorter[i] == items[i]);
        assert(forall|j: int| 0 <= j < last ==> #[trigger] shorter[j] == items[j]);
        assert(is_last_word(cache, shorter, i));
        lemma_items_last_word(cache, shorter, room, i);
        assert(!(cache.subscribes(items[last]) && items[last].id() == items[i].id()));
    }
}

/// If a coin is cached after update items are added, it is cached as the last subscribed item about
/// it says, unless that item is above the peak.
pub(crate) proof fn lemma_items_last_word_if_cached(cache: CacheView, items: Seq<CoinState>, room: int, i: int)
    requires
        is_last_word(cache, items, i),
        !cache.above_peak(items[i]),
    ensures
        cache.items_admitted(items, room).coins.contains_key(items[i].id())
            ==> cache.items_admitted(items, room).coins[items[i].id()] == items[i],
    decreases items.len(),
{
    let shorter = items.drop_last();
    let last = items.len() - 1;
    assert(items.last() == items[last]);
    lemma_items_keep_frame(cache, shorter, room);
    if i < last {
        assert(shorter[i] == items[i]);
        assert(forall|j: int| 0 <= j < last ==> #[trigger] shorter[j] == items[j]);
        assert(is_last_word(cache, shorter, i));
        lemma_items_last_word_if_cached(cache, shorter, room, i);
        assert(!(cache.subscribes(items[last]) && items[last].id() == items[i].id()));
    }
}

/// After an update, whether coin `id` counts as re-asserted is unchanged by the steps before the
/// items are added.
pub(crate) proof fn lemma_found_frame(
    cache: CacheView,
    items: Seq<CoinState>,
    height: u32,
    fork_height: u32,
    peak_hash: Bytes32,
)
    ensures
        cache.before_items(items, height, fork_height, peak_hash).subscribed_coins
            == cache.subscribed_coins,
        cache.before_items(items, height, fork_height, peak_hash).subscribed_puzzle_hashes
            == cache.subscribed_puzzle_hashes,
        forall|state: CoinState| #[trigger]
            cache.before_items(items, height, fork_height, peak_hash).subscribes(state)
                == cache.subscribes(state),
        forall|id: Bytes32| #[trigger]
            cache.before_items(items, height, fork_height, peak_hash).reasserts(items, id)
                == cache.reasserts(items, id),
        cache.coins.dom().finite() ==> cache.before_items(
            items,
            height,
            fork_height,
            peak_hash,
        ).coins.dom().finite() && cache.before_items(
            items,
            height,
            fork_height,
            peak_hash,
        ).coins.dom().len() <= cache.coins.dom().len(),
{
    let found = cache.before_items(items, height, fork_height, peak_hash);
    assert forall|id: Bytes32| #[trigger] found.reasserts(items, id) == cache.reasserts(
        items,
        id,
    ) by {
        if cache.reasserts(items, id) {
            let j = choose|j: int|
                0 <= j < items.len() && cache.subscribes(#[trigger] items[j]) && items[j].id()
                    == id;
            assert(found.subscribes(items[j]));
        }
        if found.reasserts(items, id) {
            let j = choose|j: int|
                0 <= j < items.len() && found.subscribes(#[trigger] items[j]) && items[j].id()
                    == id;
            assert(cache.subscribes(items[j]));
        }
    }
    if cache.coins.dom().finite() {
        assert(found.coins.dom().subset_of(cache.coins.dom()));
        vstd::set_lib::lemma_len_subset(found.coins.dom(), cache.coins.dom());
    }
}

/// The confirmation count of a cached coin, `peak - created`, never underflows.
pub proof fn law_confirmations_never_underflow(cache: CacheView, id: Bytes32)
    requires
        cache.valid(),
        cache.coins.contains_key(id),
        cache.peak_height() is Some,
        cache.coins[id].created_height is Some,
    ensures
        cache.peak_height()->0 - cache.coins[id].created_height->0 >= 0,
{
}

/// A peak report never lowers the peak: afterwards the peak is the report, or the higher one that
/// was already known.
pub proof fn law_peak_reports_only_advance(cache: CacheView, height: u32, header_hash: Bytes32)
    ensures
        cache.advanced_to(height, header_hash).peak_height() is Some,
        cache.advanced_to(height, header_hash).peak_height()->0 >= height,
        cache.peak_height() is Some ==> cache.advanced_to(height, header_hash).peak_height()->0
            >= cache.peak_height()->0,
        cache.advanced_to(height, header_hash).peak == Some((height, header_hash)) || cache.advanced_to(
            height,
            header_hash,
        ) == cache,
{
}

/// Taking a peak over, in either direction, leaves no cached coin above it and changes no coin that
/// stays.
pub proof fn law_peak_change_sweeps(cache: CacheView, height: u32, header_hash: Bytes32, id: Bytes32)
    ensures
        cache.with_peak(height, header_hash).coins.contains_key(id) == (cache.coins.contains_key(id)
            && !cache.coins[id].created_above(height)),
        cache.with_peak(height, header_hash).coins.contains_key(id) ==> cache.with_peak(
            height,
            header_hash,
        ).coins[id] == cache.coins[id],
{
}

/// An update lowers the peak only in an authoritative reorg, and then exactly to the update's own
/// tip.
pub proof fn law_only_a_reorg_lowers_the_peak(
    cache: CacheView,
    items: Seq<CoinState>,
    height: u32,
    fork_height: u32,
    peak_hash: Bytes32,
)
    requires
        cache.peak_height() is Some,
    ensures
        cache.authoritative_reorg(items, height, fork_height) ==> cache.updated(
            items,
            height,
            fork_height,
            peak_hash,
        ).peak == Some((height, peak_hash)),
        !cache.authoritative_reorg(items, height, fork_height) ==> cache.updated(
            items,
            height,
            fork_height,
            peak_hash,
        ).peak_height()->0 >= cache.peak_height()->0,
        cache.updated(items, height, fork_height, peak_hash).peak_height() is Some,
{
    lemma_items_keep_frame(
        cache.before_items(items, height, fork_height, peak_hash),
        items,
        cache.max_cached_coins(),
    );
}

/// An update that undoes nothing subscribed, whose fork is not below the peak, or whose tip lies
/// below its own fork, never lowers the peak.
pub proof fn law_forward_update_never_lowers_the_peak(
    cache: CacheView,
    items: Seq<CoinState>,
    height: u32,
    fork_height: u32,
    peak_hash: Bytes32,
)
    requires
        cache.peak_height() is Some,
        fork_height >= cache.peak_height()->0 || height < fork_height || forall|id: Bytes32|
            !#[trigger] cache.undoes(items, fork_height, id),
    ensures
        cache.updated(items, height, fork_height, peak_hash).peak_height() is Some,
        cache.updated(items, height, fork_height, peak_hash).peak_height()->0
            >= cache.peak_height()->0,
{
    law_only_a_reorg_lowers_the_peak(cache, items, height, fork_height, peak_hash);
}

/// An update changes no subscription.
pub proof fn law_update_keeps_subscriptions(
    cache: CacheView,
    items: Seq<CoinState>,
    height: u32,
    fork_height: u32,
    peak_hash: Bytes32,
)
    ensures
        cache.updated(items, height, fork_height, peak_hash).subscribed_coins
            == cache.subscribed_coins,
        cache.updated(items, height, fork_height, peak_hash).subscribed_puzzle_hashes
            == cache.subscribed_puzzle_hashes,
{
    lemma_found_frame(cache, items, height, fork_height, peak_hash);
    lemma_items_keep_frame(
        cache.before_items(items, height, fork_height, peak_hash),
        items,
        cache.max_cached_coins(),
    );
}

/// A peer cannot plant coins: a coin cached after an update was cached before it, or a subscribed
/// item of the update is about it.
pub proof fn law_unsolicited_coins_are_never_cached(
    cache: CacheView,
    items: Seq<CoinState>,
    height: u32,
    fork_height: u32,
    peak_hash: Bytes32,
    id: Bytes32,
)
    requires
        cache.updated(items, height, fork_height, peak_hash).coins.contains_key(id),
    ensures
        cache.coins.contains_key(id) || cache.reasserts(items, id),
{
    let found = cache.before_items(items, height, fork_height, peak_hash);
    lemma_found_frame(cache, items, height, fork_height, peak_hash);
    if !cache.reasserts(items, id) {
        assert(!found.reasserts(items, id));
        lemma_items_leave_others(found, items, cache.max_cached_coins(), id);
    }
}

/// What is cached for a re-asserted coin after an update is one of the update's subscribed items
/// about it, or the state that was cached before.
pub proof fn law_reasserted_coins_hold_an_item(
    cache: CacheView,
    items: Seq<CoinState>,
    height: u32,
    fork_height: u32,
    peak_hash: Bytes32,
    id: Bytes32,
)
    requires
        cache.updated(items, height, fork_height, peak_hash).coins.contains_key(id),
        cache.reasserts(items, id),
    ensures
        (cache.coins.contains_key(id) && cache.updated(
            items,
            height,
            fork_height,
            peak_hash,
        ).coins[id] == cache.coins[id]) || exists|i: int|
            0 <= i < items.len() && cache.subscribes(#[trigger] items[i]) && items[i].id() == id
                && cache.updated(items, height, fork_height, peak_hash).coins[id] == items[i],
{
    let found = cache.before_items(items, height, fork_height, peak_hash);
    let after = cache.updated(items, height, fork_height, peak_hash);
    lemma_found_frame(cache, items, height, fork_height, peak_hash);
    lemma_items_origin(found, items, cache.max_cached_coins(), id);
    if !(found.coins.contains_key(id) && after.coins[id] == found.coins[id]) {
        let j = choose|j: int|
            0 <= j < items.len() && found.subscribes(#[trigger] items[j]) && items[j].id() == id
                && after.coins[id] == items[j];
        assert(cache.subscribes(items[j]) && items[j].id() == id && after.coins[id] == items[j]);
    }
}

/// A read after a reorg never sees what the reorg erased: a coin that the update does not re-assert
/// is cached afterwards exactly if it was cached before, was not created above the fork and is not
/// above the new peak; and its spend is forgotten exactly if it was spent above the fork.
pub proof fn law_reorg_erases_what_it_undoes(
    cache: CacheView,
    items: Seq<CoinState>,
    height: u32,
    fork_height: u32,
    peak_hash: Bytes32,
    id: Bytes32,
)
    requires
        cache.valid(),
        !cache.reasserts(items, id),
    ensures
        ({
            let after = cache.updated(items, height, fork_height, peak_hash);
            &&& after.coins.contains_key(id) <==> (cache.coins.contains_key(id)
                && !cache.coins[id].created_above(fork_height) && !after.above_peak(
                cache.coins[id],
            ))
            &&& after.coins.contains_key(id) ==> Some(after.coins[id]) == rolled_back(
                cache.coins[id],
                fork_height,
            ) && !after.coins[id].created_above(fork_height) && !after.coins[id].spent_above(
                fork_height,
            )
        }),
{
    let found = cache.before_items(items, height, fork_height, peak_hash);
    lemma_found_frame(cache, items, height, fork_height, peak_hash);
    lemma_items_keep_frame(found, items, cache.max_cached_coins());
    assert(!found.reasserts(items, id));
    lemma_items_leave_others(found, items, cache.max_cached_coins(), id);
}

/// A coin below the fork survives an update: if it was created and spent no later than the fork and
/// the update does not re-assert it, its cached state is unchanged. The update must be well formed
/// or a peak must be known already.
pub proof fn law_coins_below_the_fork_are_kept(
    cache: CacheView,
    items: Seq<CoinState>,
    height: u32,
    fork_height: u32,
    peak_hash: Bytes32,
    id: Bytes32,
)
    requires
        cache.valid(),
        cache.coins.contains_key(id),
        !cache.reasserts(items, id),
        !cache.coins[id].created_above(fork_height),
        !cache.coins[id].spent_above(fork_height),
        height >= fork_height || cache.peak is Some,
    ensures
        cache.updated(items, height, fork_height, peak_hash).coins.contains_key(id),
        cache.updated(items, height, fork_height, peak_hash).coins[id] == cache.coins[id],
{
    law_reorg_erases_what_it_undoes(cache, items, height, fork_height, peak_hash, id);
    lemma_items_keep_frame(
        cache.before_items(items, height, fork_height, peak_hash),
        items,
        cache.max_cached_coins(),
    );
}

/// An update's items are authoritative: the last subscribed item about a coin is what is cached for
/// it afterwards, if it is not above the new peak. A new coin also needs room.
pub proof fn law_items_are_authoritative(
    cache: CacheView,
    items: Seq<CoinState>,
    height: u32,
    fork_height: u32,
    peak_hash: Bytes32,
    i: int,
)
    requires
        cache.valid(),
        is_last_word(cache, items, i),
        !cache.updated(items, height, fork_height, peak_hash).above_peak(items[i]),
        cache.coins.contains_key(items[i].id()) || cache.coins.dom().len() + items.len()
            <= cache.max_cached_coins(),
    ensures
        cache.updated(items, height, fork_height, peak_hash).coins.contains_key(items[i].id()),
        cache.updated(items, height, fork_height, peak_hash).coins[items[i].id()] == items[i],
{
    let found = cache.before_items(items, height, fork_height, peak_hash);
    lemma_found_frame(cache, items, height, fork_height, peak_hash);
    lemma_items_keep_frame(found, items, cache.max_cached_coins());
    assert(found.subscribes(items[i]));
    assert forall|j: int| i < j < items.len() implies !(found.subscribes(#[trigger] items[j])
        && items[j].id() == items[i].id()) by {
        assert(!(cache.subscribes(items[j]) && items[j].id() == items[i].id()));
    }
    lemma_items_last_word(found, items, cache.max_cached_coins(), i);
}

/// What an update takes back does not linger: if the last subscribed item about a coin is above the
/// new peak, though the cache could still take it before the peak was lowered, the coin is not
/// cached afterwards.
pub proof fn law_items_above_a_lowered_peak_are_swept(
    cache: CacheView,
    items: Seq<CoinState>,
    height: u32,
    fork_height: u32,
    peak_hash: Bytes32,
    i: int,
)
    requires
        is_last_word(cache, items, i),
        !cache.before_items(items, height, fork_height, peak_hash).above_peak(items[i]),
        cache.updated(items, height, fork_height, peak_hash).above_peak(items[i]),
    ensures
        !cache.updated(items, height, fork_height, peak_hash).coins.contains_key(items[i].id()),
{
    let found = cache.before_items(items, height, fork_height, peak_hash);
    lemma_found_frame(cache, items, height, fork_height, peak_hash);
    lemma_items_keep_frame(found, items, cache.max_cached_coins());
    assert forall|j: int| i < j < items.len() implies !(found.subscribes(#[trigger] items[j])
        && items[j].id() == items[i].id()) by {
        assert(!(cache.subscribes(items[j]) && items[j].id() == items[i].id()));
    }
    assert(found.subscribes(items[i]));
    lemma_items_last_word_if_cached(found, items, cache.max_cached_coins(), i);
}

/// An update never grows the cache past its room: afterwards it holds at most as many coins as it
/// makes room for, or at most as many as it held before.
pub proof fn law_update_is_bounded(
    cache: CacheView,
    items: Seq<CoinState>,
    height: u32,
    fork_height: u32,
    peak_hash: Bytes32,
)
    requires
        cache.valid(),
    ensures
        cache.updated(items, height, fork_height, peak_hash).coins.dom().finite(),
        cache.updated(items, height, fork_height, peak_hash).coins.dom().len()
            <= cache.max_cached_coins() || cache.updated(
            items,
            height,
            fork_height,
            peak_hash,
        ).coins.dom().len() <= cache.coins.dom().len(),
{
    let found = cache.before_items(items, height, fork_height, peak_hash);
    let added = found.items_admitted(items, cache.max_cached_coins());
    let after = cache.updated(items, height, fork_height, peak_hash);
    lemma_found_frame(cache, items, height, fork_height, peak_hash);
    lemma_items_room(found, items, cache.max_cached_coins());
    assert(after.coins.dom().subset_of(added.coins.dom()));
    vstd::set_lib::lemma_len_subset(after.coins.dom(), added.coins.dom());
}

/// Seeding changes neither the subscriptions nor the peak.
pub proof fn law_seed_keeps_subscriptions_and_peak(cache: CacheView, states: Seq<CoinState>)
    ensures
        cache.seeded(states).peak == cache.peak,
        cache.seeded(states).subscribed_coins == cache.subscribed_coins,
        cache.seeded(states).subscribed_puzzle_hashes == cache.subscribed_puzzle_hashes,
    decreases states.len(),
{
    if states.len() > 0 {
        law_seed_keeps_subscriptions_and_peak(cache, states.drop_last());
    }
}

/// A seeded coin reads back as seeded: the last seeded state of a coin is what is cached for it,
/// unless it is above the peak.
pub proof fn law_seed_then_get(cache: CacheView, states: Seq<CoinState>, i: int)
    requires
        0 <= i < states.len(),
        !cache.above_peak(states[i]),
        forall|j: int| i < j < states.len() ==> (#[trigger] states[j]).id() != states[i].id(),
    ensures
        cache.seeded(states).coins.contains_key(states[i].id()),
        cache.seeded(states).coins[states[i].id()] == states[i],
    decreases states.len(),
{
    let shorter = states.drop_last();
    law_seed_keeps_subscriptions_and_peak(cache, shorter);
    if i < states.len() - 1 {
        assert(shorter[i] == states[i]);
        assert forall|j: int| i < j < shorter.len() implies (#[trigger] shorter[j]).id()
            != shorter[i].id() by {
            assert(states[j].id() != states[i].id());
        }
        law_seed_then_get(cache, shorter, i);
        assert(states[states.len() - 1].id() != states[i].id());
    }
}

/// Seeding leaves every coin alone that it does not mention.
pub proof fn law_seed_leaves_others(cache: CacheView, states: Seq<CoinState>, id: Bytes32)
    requires
        forall|j: int| 0 <= j < states.len() ==> (#[trigger] states[j]).id() != id,
    ensures
        cache.seeded(states).coins.contains_key(id) == cache.coins.contains_key(id),
        cache.coins.contains_key(id) ==> cache.seeded(states).coins[id] == cache.coins[id],
    decreases states.len(),
{
    if states.len() > 0 {
        let shorter = states.drop_last();
        assert forall|j: int| 0 <= j < shorter.len() implies (#[trigger] shorter[j]).id() != id by {
            assert(states[j].id() != id);
        }
        law_seed_leaves_others(cache, shorter, id);
        assert(states[states.len() - 1].id() != id);
    }
}

/// Untracking undoes tracking, except for coins that were subscribed before, and keeps every cached
/// state.
pub proof fn law_untrack_undoes_track(cache: CacheView, ids: Seq<Bytes32>)
    ensures
        forall|i: int|
            0 <= i < ids.len() ==> cache.coins_tracked(ids).subscribed_coins.contains(
                #[trigger] ids[i],
            ),
        forall|i: int|
            0 <= i < ids.len() ==> !cache.coins_untracked(ids).subscribed_coins.contains(
                #[trigger] ids[i],
            ),
        cache.coins_tracked(ids).coins_untracked(ids) == cache.coins_untracked(ids),
        cache.subscribed_coins.disjoint(ids.to_set()) ==> cache.coins_tracked(ids).coins_untracked(
            ids,
        ) == cache,
        cache.coins_untracked(ids).coins == cache.coins,
{
    assert(cache.coins_tracked(ids).coins_untracked(ids) =~= cache.coins_untracked(ids));
    if cache.subscribed_coins.disjoint(ids.to_set()) {
        assert(cache.coins_tracked(ids).coins_untracked(ids) =~= cache);
    }
}

} // verus!
