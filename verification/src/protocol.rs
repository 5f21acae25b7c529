//! The wallet-protocol values the client reasons about, and the calls that compute on them in the
//! protocol crates: coin ids, pushed-message decoding, record building.

use chia::traits::Streamable;
use vstd::prelude::*;

use crate::bytes::Bytes32;

verus! {

/// A coin: who created it, the puzzle that guards it, and what it is worth.
#[derive(Debug, Clone, Copy, PartialEq, Eq)]
pub struct Coin {
    /// The id of the coin whose spend created this one.
    pub parent_coin_info: Bytes32,
    /// The hash of the puzzle that guards the coin.
    pub puzzle_hash: Bytes32,
    /// The amount, in mojos.
    pub amount: u64,
}

/// The id that `chia_protocol::Coin::coin_id` gives to a coin with these fields.
pub uninterp spec fn coin_id_of(coin: Coin) -> Bytes32;

/// Calls `chia_protocol::Coin::coin_id`, a SHA-256 over the coin's three fields. The result is
/// claimed to be a function of those fields and nothing more.
#[verifier::external_body]
fn hash_coin(coin: &Coin) -> (id: Bytes32)
    ensures
        id == coin_id_of(*coin),
{
    let hashed = chia_protocol::Coin::new(
        chia_protocol::Bytes32::new(coin.parent_coin_info.bytes),
        chia_protocol::Bytes32::new(coin.puzzle_hash.bytes),
        coin.amount,
    ).coin_id();
    Bytes32 { bytes: hashed.to_bytes() }
}

impl Coin {
    /// Builds a coin from its fields.
    pub fn new(parent_coin_info: Bytes32, puzzle_hash: Bytes32, amount: u64) -> (coin: Self)
        ensures
            coin == (Coin { parent_coin_info, puzzle_hash, amount }),
    {
        Coin { parent_coin_info, puzzle_hash, amount }
    }

    /// The coin's id.
    pub fn coin_id(&self) -> (id: Bytes32)
        ensures
            id == coin_id_of(*self),
    {
        hash_coin(self)
    }
}

/// A coin together with the heights at which it was created and spent, as far as they are known.
#[derive(Debug, Clone, Copy, PartialEq, Eq)]
pub struct CoinState {
    /// The coin.
    pub coin: Coin,
    /// The height of the block that created the coin.
    pub created_height: Option<u32>,
    /// The height of the block that spent the coin.
    pub spent_height: Option<u32>,
}

impl CoinState {
    /// The id of the coin this state is about.
    pub open spec fn id(self) -> Bytes32 {
        coin_id_of(self.coin)
    }

    /// The coin is known to have been created in a block above `height`.
    pub open spec fn created_above(self, height: u32) -> bool {
        self.created_height is Some && self.created_height->0 > height
    }

    /// The coin is known to have been spent in a block above `height`.
    pub open spec fn spent_above(self, height: u32) -> bool {
        self.spent_height is Some && self.spent_height->0 > height
    }

    /// Whether the coin is known to have been created in a block above `height`.
    pub fn is_created_above(&self, height: u32) -> (above: bool)
        ensures
            above == self.created_above(height),
    {
        match self.created_height {
            Some(created) => created > height,
            None => false,
        }
    }

    /// Whether the coin is known to have been spent in a block above `height`.
    pub fn is_spent_above(&self, height: u32) -> (above: bool)
        ensures
            above == self.spent_above(height),
    {
        match self.spent_height {
            Some(spent) => spent > height,
            None => false,
        }
    }
}

/// Which coins a puzzle-hash read asks for.
#[derive(Debug, Clone, Copy, PartialEq, Eq)]
pub struct CoinStateFilters {
    /// Include coins that have been spent.
    pub include_spent: bool,
    /// Include coins that have not been spent.
    pub include_unspent: bool,
    /// Include coins that name the puzzle hash in a hint.
    pub include_hinted: bool,
    /// Leave out coins worth less than this.
    pub min_amount: u64,
}

/// A coin with its lifecycle, as a chain source reports it.
#[derive(Debug, Clone, Copy, PartialEq, Eq)]
pub struct CoinRecord {
    /// The coin.
    pub coin: Coin,
    /// The height of the block that confirmed the coin, if known.
    pub confirmed_height: Option<u32>,
    /// The height of the block that spent the coin, if known.
    pub spent_height: Option<u32>,
    /// The timestamp of the confirming block, if known.
    pub timestamp: Option<u64>,
    /// Whether the coin is a block reward.
    pub coinbase: bool,
}

impl CoinRecord {
    /// The record that stands for `state`: its heights carried over, nothing else known.
    pub open spec fn of_state(state: CoinState) -> CoinRecord {
        CoinRecord {
            coin: state.coin,
            confirmed_height: state.created_height,
            spent_height: state.spent_height,
            timestamp: None,
            coinbase: false,
        }
    }
}

/// Calls `dig_chainsource_interface::CoinRecord::from_coin_state`, which carries the coin and the
/// spent height over, reports the created height as the confirmed height, and knows neither a
/// timestamp nor a reward.
#[verifier::external_body]
pub(crate) fn record_from_coin_state(state: CoinState) -> (record: CoinRecord)
    ensures
        record == CoinRecord::of_state(state),
{
    let parent = chia_protocol::Bytes32::new(state.coin.parent_coin_info.bytes);
    let puzzle_hash = chia_protocol::Bytes32::new(state.coin.puzzle_hash.bytes);
    let coin = chia_protocol::Coin::new(parent, puzzle_hash, state.coin.amount);
    let CoinState { created_height, spent_height, .. } = state;
    let r = dig_chainsource_interface::CoinRecord::from_coin_state(
        chia_protocol::CoinState { coin, created_height, spent_height },
    );
    let parent_coin_info = Bytes32 { bytes: r.coin.parent_coin_info.to_bytes() };
    let puzzle_hash = Bytes32 { bytes: r.coin.puzzle_hash.to_bytes() };
    let coin = Coin { parent_coin_info, puzzle_hash, amount: r.coin.amount };
    let (confirmed_height, spent_height) = (r.confirmed_height, r.spent_height);
    CoinRecord { coin, confirmed_height, spent_height, timestamp: r.timestamp, coinbase: r.coinbase }
}

/// A coin's spend: the coin, the puzzle that was revealed and the solution it was run with.
#[derive(Debug, Clone, PartialEq, Eq)]
pub struct CoinSpend {
    /// The spent coin.
    pub coin: Coin,
    /// The serialized puzzle.
    pub puzzle_reveal: Vec<u8>,
    /// The serialized solution.
    pub solution: Vec<u8>,
}

/// A 32-bit number, most significant byte first.
pub open spec fn u32_bytes(n: u32) -> Seq<u8> {
    seq![
        (n / 0x100_0000) as u8,
        (n / 0x1_0000 % 0x100) as u8,
        (n / 0x100 % 0x100) as u8,
        (n % 0x100) as u8,
    ]
}

/// Two numbers with the same bytes are the same.
proof fn lemma_u32_bytes(a: u32, b: u32)
    requires
        u32_bytes(a) == u32_bytes(b),
    ensures
        a == b,
{
    let (x, y) = (u32_bytes(a), u32_bytes(b));
    assert(x[0] == y[0] && x[1] == y[1] && x[2] == y[2] && x[3] == y[3]);
}

/// The push that announces a new chain tip, as far as the client reads it.
#[derive(Debug, Clone, Copy, PartialEq, Eq)]
pub struct NewPeakWallet {
    /// The hash of the tip's header.
    pub header_hash: Bytes32,
    /// The tip's height.
    pub height: u32,
}

/// `data` is a serialized new-peak push that says `peak`: a 32-byte header hash, a 4-byte height,
/// then a 16-byte weight and a 4-byte fork height, which the client does not read.
pub open spec fn encodes_new_peak(data: Seq<u8>, peak: NewPeakWallet) -> bool {
    &&& data.len() == 56
    &&& peak.header_hash.bytes@ == data.take(32)
    &&& u32_bytes(peak.height) == data.subrange(32, 36)
}

/// Bytes say at most one peak.
pub proof fn law_new_peak_is_unambiguous(data: Seq<u8>, a: NewPeakWallet, b: NewPeakWallet)
    requires
        encodes_new_peak(data, a),
        encodes_new_peak(data, b),
    ensures
        a == b,
{
    lemma_u32_bytes(a.height, b.height);
    assert(a.header_hash.bytes =~= b.header_hash.bytes);
}

/// Calls `chia_protocol::NewPeakWallet::from_bytes`. Every field has a fixed width, so parsing
/// succeeds exactly on 56 bytes; heights are big-endian.
#[verifier::external_body]
pub(crate) fn parse_new_peak_wallet(data: &[u8]) -> (peak: Option<NewPeakWallet>)
    ensures
        peak is Some <==> data@.len() == 56,
        peak is Some ==> encodes_new_peak(data@, peak->0),
{
    let parsed = chia_protocol::NewPeakWallet::from_bytes(data).ok()?;
    Some(
        NewPeakWallet {
            header_hash: Bytes32 { bytes: parsed.header_hash.to_bytes() },
            height: parsed.height,
        },
    )
}

/// The push that reports changed coins.
#[derive(Debug, Clone, PartialEq, Eq)]
pub struct CoinStateUpdate {
    /// The height of the tip the report is made at.
    pub height: u32,
    /// The height of the last block that the chain of the previous report still shares.
    pub fork_height: u32,
    /// The hash of the tip's header.
    pub peak_hash: Bytes32,
    /// The changed coins.
    pub items: Vec<CoinState>,
}

/// What a [`CoinStateUpdate`] says.
pub struct CoinStateUpdateView {
    pub height: u32,
    pub fork_height: u32,
    pub peak_hash: Bytes32,
    pub items: Seq<CoinState>,
}

impl View for CoinStateUpdate {
    type V = CoinStateUpdateView;

    open spec fn view(&self) -> CoinStateUpdateView {
        CoinStateUpdateView {
            height: self.height,
            fork_height: self.fork_height,
            peak_hash: self.peak_hash,
            items: self.items@,
        }
    }
}

/// A 64-bit number, most significant byte first.
pub open spec fn u64_bytes(n: u64) -> Seq<u8> {
    u32_bytes((n / 0x1_0000_0000) as u32) + u32_bytes((n % 0x1_0000_0000) as u32)
}

/// A height that may be missing: a zero byte if it is, otherwise a one byte and the height.
pub open spec fn height_bytes(height: Option<u32>) -> Seq<u8> {
    match height {
        Some(h) => seq![1u8] + u32_bytes(h),
        None => seq![0u8],
    }
}

/// A serialized coin state: the coin's parent, puzzle hash and amount, the height it was spent at
/// and the height it was created at.
pub open spec fn state_bytes(state: CoinState) -> Seq<u8> {
    state.coin.parent_coin_info.bytes@ + (state.coin.puzzle_hash.bytes@ + (u64_bytes(
        state.coin.amount,
    ) + (height_bytes(state.spent_height) + height_bytes(state.created_height))))
}

/// Serialized coin states, one after the other.
pub open spec fn states_bytes(states: Seq<CoinState>) -> Seq<u8>
    decreases states.len(),
{
    if states.len() == 0 {
        Seq::empty()
    } else {
        state_bytes(states[0]) + states_bytes(states.skip(1))
    }
}

impl CoinStateUpdateView {
    /// `data` is this update, serialized: its height, its fork height, its peak hash, how many
    /// items it has, and the items.
    #[verifier::opaque]
    pub open spec fn encoded_by(self, data: Seq<u8>) -> bool {
        &&& self.items.len() <= u32::MAX
        &&& data == u32_bytes(self.height) + (u32_bytes(self.fork_height) + (self.peak_hash.bytes@
            + (u32_bytes(self.items.len() as u32) + states_bytes(self.items))))
    }
}

/// Two lists that start with parts of the same length are the same exactly if the parts and the
/// rests are.
proof fn lemma_split(a: Seq<u8>, rest_a: Seq<u8>, b: Seq<u8>, rest_b: Seq<u8>)
    requires
        a + rest_a == b + rest_b,
        a.len() == b.len(),
    ensures
        a == b,
        rest_a == rest_b,
{
    let (x, y) = (a + rest_a, b + rest_b);
    assert(a =~= x.take(a.len() as int));
    assert(b =~= y.take(a.len() as int));
    assert(rest_a =~= x.skip(a.len() as int));
    assert(rest_b =~= y.skip(a.len() as int));
}

/// A serialized height can be told from what follows it.
proof fn lemma_height_bytes(a: Option<u32>, rest_a: Seq<u8>, b: Option<u32>, rest_b: Seq<u8>)
    requires
        height_bytes(a) + rest_a == height_bytes(b) + rest_b,
    ensures
        a == b,
        rest_a == rest_b,
{
    assert((height_bytes(a) + rest_a)[0] == height_bytes(a)[0]);
    assert((height_bytes(b) + rest_b)[0] == height_bytes(b)[0]);
    assert(a is Some <==> b is Some);
    lemma_split(height_bytes(a), rest_a, height_bytes(b), rest_b);
    if a is Some {
        assert(u32_bytes(a->0) =~= height_bytes(a).skip(1));
        assert(u32_bytes(b->0) =~= height_bytes(b).skip(1));
        lemma_u32_bytes(a->0, b->0);
    }
}

/// A serialized coin state can be told from what follows it.
proof fn lemma_state_bytes(a: CoinState, rest_a: Seq<u8>, b: CoinState, rest_b: Seq<u8>)
    requires
        state_bytes(a) + rest_a == state_bytes(b) + rest_b,
    ensures
        a == b,
        rest_a == rest_b,
{
    let (ha, hb) = (height_bytes(a.spent_height), height_bytes(b.spent_height));
    let (ca, cb) = (height_bytes(a.created_height), height_bytes(b.created_height));
    let (na, nb) = (u64_bytes(a.coin.amount), u64_bytes(b.coin.amount));
    let (pa, pb) = (a.coin.puzzle_hash.bytes@, b.coin.puzzle_hash.bytes@);
    let (ia, ib) = (a.coin.parent_coin_info.bytes@, b.coin.parent_coin_info.bytes@);
    assert(state_bytes(a) + rest_a =~= ia + (pa + (na + (ha + (ca + rest_a)))));
    assert(state_bytes(b) + rest_b =~= ib + (pb + (nb + (hb + (cb + rest_b)))));
    lemma_split(ia, pa + (na + (ha + (ca + rest_a))), ib, pb + (nb + (hb + (cb + rest_b))));
    lemma_split(pa, na + (ha + (ca + rest_a)), pb, nb + (hb + (cb + rest_b)));
    lemma_split(na, ha + (ca + rest_a), nb, hb + (cb + rest_b));
    lemma_height_bytes(a.spent_height, ca + rest_a, b.spent_height, cb + rest_b);
    lemma_height_bytes(a.created_height, rest_a, b.created_height, rest_b);
    let (ma, mb) = (a.coin.amount, b.coin.amount);
    let (high_a, high_b) = ((ma / 0x1_0000_0000) as u32, (mb / 0x1_0000_0000) as u32);
    let (low_a, low_b) = ((ma % 0x1_0000_0000) as u32, (mb % 0x1_0000_0000) as u32);
    lemma_split(u32_bytes(high_a), u32_bytes(low_a), u32_bytes(high_b), u32_bytes(low_b));
    lemma_u32_bytes(high_a, high_b);
    lemma_u32_bytes(low_a, low_b);
    assert(a.coin.parent_coin_info.bytes =~= b.coin.parent_coin_info.bytes);
    assert(a.coin.puzzle_hash.bytes =~= b.coin.puzzle_hash.bytes);
}

/// Equally many serialized coin states with the same bytes are the same.
proof fn lemma_states_bytes(a: Seq<CoinState>, b: Seq<CoinState>)
    requires
        a.len() == b.len(),
        states_bytes(a) == states_bytes(b),
    ensures
        a == b,
    decreases a.len(),
{
    if a.len() > 0 {
        lemma_state_bytes(a[0], states_bytes(a.skip(1)), b[0], states_bytes(b.skip(1)));
        lemma_states_bytes(a.skip(1), b.skip(1));
        assert forall|i: int| 0 <= i < a.len() implies a[i] == b[i] by {
            if i > 0 {
                assert(a.skip(1)[i - 1] == b.skip(1)[i - 1]);
            }
        }
    }
    assert(a =~= b);
}

/// Bytes say at most one update.
pub proof fn law_update_is_unambiguous(
    data: Seq<u8>,
    a: CoinStateUpdateView,
    b: CoinStateUpdateView,
)
    requires
        a.encoded_by(data),
        b.encoded_by(data),
    ensures
        a == b,
{
    reveal(CoinStateUpdateView::encoded_by);
    let (sa, sb) = (states_bytes(a.items), states_bytes(b.items));
    let (la, lb) = (u32_bytes(a.items.len() as u32), u32_bytes(b.items.len() as u32));
    let (pa, pb) = (a.peak_hash.bytes@, b.peak_hash.bytes@);
    let (fa, fb) = (u32_bytes(a.fork_height), u32_bytes(b.fork_height));
    let (ha, hb) = (u32_bytes(a.height), u32_bytes(b.height));
    lemma_split(ha, fa + (pa + (la + sa)), hb, fb + (pb + (lb + sb)));
    lemma_split(fa, pa + (la + sa), fb, pb + (lb + sb));
    lemma_split(pa, la + sa, pb, lb + sb);
    lemma_split(la, sa, lb, sb);
    lemma_u32_bytes(a.height, b.height);
    lemma_u32_bytes(a.fork_height, b.fork_height);
    lemma_u32_bytes(a.items.len() as u32, b.items.len() as u32);
    lemma_states_bytes(a.items, b.items);
    assert(a.peak_hash.bytes =~= b.peak_hash.bytes);
}

/// Calls `chia_protocol::CoinStateUpdate::from_bytes`, which succeeds exactly on a serialized update
/// with nothing behind it, and gives that update.
#[verifier::external_body]
pub(crate) fn parse_coin_state_update(data: &[u8]) -> (update: Option<CoinStateUpdate>)
    ensures
        match update {
            Some(parsed) => parsed@.encoded_by(data@),
            None => forall|said: CoinStateUpdateView| !#[trigger] said.encoded_by(data@),
        },
{
    let parsed = chia_protocol::CoinStateUpdate::from_bytes(data).ok()?;
    let (height, fork_height) = (parsed.height, parsed.fork_height);
    let peak_hash = Bytes32 { bytes: parsed.peak_hash.to_bytes() };
    let items = parsed.items.into_iter().map(|s| CoinState {
        coin: Coin {
            parent_coin_info: Bytes32 { bytes: s.coin.parent_coin_info.to_bytes() },
            puzzle_hash: Bytes32 { bytes: s.coin.puzzle_hash.to_bytes() },
            amount: s.coin.amount,
        },
        created_height: s.created_height,
        spent_height: s.spent_height,
    }).collect();
    Some(CoinStateUpdate { height, fork_height, peak_hash, items })
}

/// A coin is above a height exactly if it is known to have been created, or spent, at a greater one.
pub proof fn law_which_heights_are_above(state: CoinState, height: u32)
    ensures
        state.created_above(height) <==> (state.created_height matches Some(created) && created
            > height),
        state.spent_above(height) <==> (state.spent_height matches Some(spent) && spent > height),
        state.id() == coin_id_of(state.coin),
{
}

/// An update says what it holds.
pub proof fn law_updates_say_what_they_hold(update: CoinStateUpdate)
    ensures
        update@.height == update.height,
        update@.fork_height == update.fork_height,
        update@.peak_hash == update.peak_hash,
        update@.items == update.items@,
{
}

/// How an update is laid out: its height in the first four bytes, most significant first, its fork
/// height in the next four, its peak hash in the next 32, the number of its items in the next four,
/// and then the items and nothing else.
pub proof fn law_how_an_update_is_laid_out(update: CoinStateUpdateView, data: Seq<u8>)
    requires
        update.encoded_by(data),
    ensures
        data.len() >= 44,
        update.height == data[0] * 0x100_0000 + data[1] * 0x1_0000 + data[2] * 0x100 + data[3],
        update.fork_height == data[4] * 0x100_0000 + data[5] * 0x1_0000 + data[6] * 0x100 + data[7],
        update.peak_hash.bytes@ == data.subrange(8, 40),
        update.items.len() == data[40] * 0x100_0000 + data[41] * 0x1_0000 + data[42] * 0x100
            + data[43],
        update.items.len() == 0 <==> data.len() == 44,
{
    reveal(CoinStateUpdateView::encoded_by);
    let rest = states_bytes(update.items);
    let n = update.items.len() as u32;
    let hash = update.peak_hash.bytes@;
    assert(hash.len() == 32);
    lemma_number_spelled(update.height);
    lemma_number_spelled(update.fork_height);
    lemma_number_spelled(n);
    assert(data.subrange(0, 4) =~= u32_bytes(update.height));
    assert(data.subrange(4, 8) =~= u32_bytes(update.fork_height));
    assert(data.subrange(8, 40) =~= hash);
    assert(data.subrange(40, 44) =~= u32_bytes(n));
    assert(forall|i: int| 0 <= i < 4 ==> data.subrange(0, 4)[i] == data[i]);
    assert(forall|i: int| 0 <= i < 4 ==> data.subrange(4, 8)[i] == data[4 + i]);
    assert(forall|i: int| 0 <= i < 4 ==> data.subrange(40, 44)[i] == data[40 + i]);
    assert(data[0] == u32_bytes(update.height)[0] && data[1] == u32_bytes(update.height)[1]
        && data[2] == u32_bytes(update.height)[2] && data[3] == u32_bytes(update.height)[3]);
    assert(data[4] == u32_bytes(update.fork_height)[0] && data[5] == u32_bytes(
        update.fork_height,
    )[1] && data[6] == u32_bytes(update.fork_height)[2] && data[7] == u32_bytes(
        update.fork_height,
    )[3]);
    assert(data[40] == u32_bytes(n)[0] && data[41] == u32_bytes(n)[1] && data[42] == u32_bytes(n)[2]
        && data[43] == u32_bytes(n)[3]);
    assert(data.len() == 44 + rest.len());
    if update.items.len() > 0 {
        assert(state_bytes(update.items[0]).len() >= 32);
    }
}

/// Four bytes spell the number they are the bytes of.
proof fn lemma_number_spelled(n: u32)
    ensures
        u32_bytes(n).len() == 4,
        n == u32_bytes(n)[0] * 0x100_0000 + u32_bytes(n)[1] * 0x1_0000 + u32_bytes(n)[2] * 0x100
            + u32_bytes(n)[3],
{
}

} // verus!
