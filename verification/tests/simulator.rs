//! The library's requests and replies, answered by the wallet SDK's in-memory chain simulator.

use chia::traits::Streamable;
use chia_peer::client::{handle_message, MessageKind};
use chia_peer::config::Timeout;
use chia_peer::fetcher::{PagedStep, PeerReply, PuzzleStatePage, Verdict};
use chia_peer::protocol::{Coin, CoinState, CoinStateFilters};
use chia_peer::provider::CoinLookup;
use chia_peer::{
    Bytes32, ChiaLightClient, ChiaNetwork, ChiaPeerConfig, ChiaPeerError, PeerFetcher,
    SubmitOutcome,
};
use chia_protocol::SpendBundle;
use chia_wallet_sdk::test::Simulator;

/// Stands for the connection to the simulator.
const PEER: u8 = 1;

type Fetcher = PeerFetcher<u8>;

fn genesis() -> Bytes32 {
    ChiaNetwork::Testnet11.genesis_challenge()
}

fn ours(id: chia_protocol::Bytes32) -> Bytes32 {
    Bytes32::new(id.to_bytes())
}

fn theirs(id: Bytes32) -> chia_protocol::Bytes32 {
    id.to_bytes().into()
}

fn our_coin(coin: chia_protocol::Coin) -> Coin {
    Coin::new(ours(coin.parent_coin_info), ours(coin.puzzle_hash), coin.amount)
}

fn our_states(states: Vec<chia_protocol::CoinState>) -> Vec<CoinState> {
    states
        .into_iter()
        .map(|s| CoinState {
            coin: our_coin(s.coin),
            created_height: s.created_height,
            spent_height: s.spent_height,
        })
        .collect()
}

fn all_filters() -> CoinStateFilters {
    CoinStateFilters {
        include_spent: true,
        include_unspent: true,
        include_hinted: true,
        min_amount: 0,
    }
}

/// Answers a state request made from height zero, as a node does: it refuses one that does not name
/// its genesis challenge.
fn verdict<T>(previous: Option<u32>, header_hash: Bytes32, answer: T) -> PeerReply<Verdict<T>> {
    PeerReply::Answered(if previous.is_none() && header_hash == genesis() {
        Verdict::Granted(answer)
    } else {
        Verdict::Refused
    })
}

fn coin_states(
    sim: &Simulator,
    fetcher: &Fetcher,
    coin_ids: Vec<Bytes32>,
    subscribe: bool,
) -> Result<Vec<CoinState>, ChiaPeerError> {
    let (peer, request) = fetcher.coin_states(coin_ids, subscribe)?;
    assert_eq!(peer, PEER);
    assert_eq!(request.subscribe, subscribe);
    let ids = request.coin_ids.into_iter().map(theirs).collect();
    let found = our_states(sim.lookup_coin_ids(&ids));
    Fetcher::coin_states_reply(verdict(request.previous_height, request.header_hash, found))
}

fn puzzle_states(
    sim: &Simulator,
    fetcher: &Fetcher,
    puzzle_hashes: Vec<Bytes32>,
    filters: CoinStateFilters,
    subscribe: bool,
) -> Result<Vec<CoinState>, ChiaPeerError> {
    let (peer, read) = fetcher.puzzle_states()?;
    assert_eq!(peer, PEER);
    let request = read.request(puzzle_hashes, filters, subscribe);
    assert_eq!(request.subscribe, subscribe);
    let hashes = request.puzzle_hashes.into_iter().map(theirs).collect();
    let found = sim.lookup_puzzle_hashes(hashes, request.filters.include_hinted);
    let page = PuzzleStatePage {
        coin_states: our_states(found),
        height: sim.height(),
        header_hash: ours(sim.header_hash()),
        is_finished: true,
    };
    let answered = verdict(request.previous_height, request.header_hash, page);
    match read.take_page(Fetcher::puzzle_states_reply(answered)) {
        PagedStep::Done(states) => Ok(states),
        PagedStep::Failed(error) => Err(error),
        PagedStep::More(_) => panic!("one page is all there is"),
    }
}

fn send_transaction(
    sim: &mut Simulator,
    fetcher: &Fetcher,
    bundle: SpendBundle,
) -> Result<u8, ChiaPeerError> {
    let (peer, bundle) = fetcher.send_transaction(bundle)?;
    assert_eq!(peer, PEER);
    let status = match sim.new_transaction(bundle) {
        Ok(_) => 1,
        Err(_) => 3,
    };
    Fetcher::send_transaction_reply(PeerReply::Answered(status))
}

fn fetcher_over_sim() -> (Simulator, Fetcher, Coin) {
    let mut sim = Simulator::new();
    let coin = sim.new_coin([7; 32].into(), 1_000);
    let fetcher = PeerFetcher::new(PEER, genesis(), Timeout::from_secs(5));
    (sim, fetcher, our_coin(coin))
}

fn client_over_sim() -> (Simulator, ChiaLightClient<u8>, Coin) {
    let mut sim = Simulator::new();
    let coin = sim.new_coin([7; 32].into(), 500);
    let client = ChiaLightClient::from_connection(ChiaPeerConfig::testnet11(), PEER);
    (sim, client, our_coin(coin))
}

#[test]
fn coin_states_reads_an_inserted_coin() {
    let (sim, fetcher, coin) = fetcher_over_sim();
    let states = coin_states(&sim, &fetcher, vec![coin.coin_id()], false).unwrap();
    assert_eq!(states.len(), 1);
    assert_eq!(states[0].coin, coin);
}

#[test]
fn coin_states_of_unknown_coin_is_empty() {
    let (sim, fetcher, _coin) = fetcher_over_sim();
    let states = coin_states(&sim, &fetcher, vec![Bytes32::new([0xee; 32])], false).unwrap();
    assert!(states.is_empty());
}

#[test]
fn puzzle_states_reads_by_puzzle_hash() {
    let (sim, fetcher, coin) = fetcher_over_sim();
    let filters = all_filters();
    let states = puzzle_states(&sim, &fetcher, vec![coin.puzzle_hash], filters, false).unwrap();
    assert!(states.iter().any(|s| s.coin == coin));
}

#[test]
fn children_reads_child_coins_of_a_parent() {
    let mut sim = Simulator::new();
    let parent = Bytes32::new([9; 32]);
    let child = chia_protocol::Coin::new(theirs(parent), [3; 32].into(), 5);
    sim.insert_coin(child);
    let fetcher = PeerFetcher::new(PEER, genesis(), Timeout::from_secs(5));

    let (_peer, asked) = fetcher.children(parent).unwrap();
    let found = our_states(sim.children(theirs(asked)));
    let kids = Fetcher::children_reply(PeerReply::Answered(found)).unwrap();
    assert_eq!(kids.len(), 1);
    assert_eq!(kids[0].coin, our_coin(child));
}

#[test]
fn puzzle_and_solution_of_unspent_coin_never_yields_a_spend() {
    let (sim, fetcher, coin) = fetcher_over_sim();
    let (_peer, (id, height)) = fetcher.puzzle_and_solution(coin.coin_id(), 1).unwrap();
    assert_eq!(height, 1);
    let answered = match sim.puzzle_and_solution(theirs(id)) {
        Some((puzzle, solution)) => Verdict::Granted((
            puzzle.as_slice().to_vec(),
            solution.as_slice().to_vec(),
        )),
        None => Verdict::Refused,
    };
    let result = Fetcher::puzzle_and_solution_reply(PeerReply::Answered(answered));
    assert!(
        result.is_err(),
        "unspent coin must fail closed, not yield a reveal: {result:?}"
    );
}

#[test]
fn submitting_an_invalid_bundle_returns_a_failure_ack() {
    let (mut sim, fetcher, _coin) = fetcher_over_sim();
    let bundle = SpendBundle::new(vec![], chia::bls::Signature::default());
    let status = send_transaction(&mut sim, &fetcher, bundle).unwrap();
    assert_eq!(status, 3, "an empty bundle is rejected with a failure ack");
}

#[test]
fn subscribe_then_remove_coin_subscriptions_succeeds() {
    let (sim, fetcher, coin) = fetcher_over_sim();
    coin_states(&sim, &fetcher, vec![coin.coin_id()], true).unwrap();
    let (peer, removed) = fetcher
        .remove_coin_subscriptions(vec![coin.coin_id()])
        .unwrap();
    assert_eq!((peer, removed), (PEER, vec![coin.coin_id()]));
    Fetcher::remove_coin_subscriptions_reply(PeerReply::Answered(())).unwrap();
}

#[test]
fn subscribe_seeds_cache_and_provider_reads_it() {
    let (sim, mut client, coin) = client_over_sim();
    let id = coin.coin_id();
    let answer = coin_states(&sim, &client.fetcher, vec![id], true);
    client.subscribe_coins(&[id], answer).unwrap();

    let provider = client.as_chain_source_provider();
    let state = match provider.look_up(&client.cache, id) {
        CoinLookup::Cached(state) => Ok(Some(state)),
        CoinLookup::Ask(_) => panic!("a subscribed coin is not asked for"),
    };
    let record = provider.coin_record(&client.cache, state).unwrap();
    assert!(record.is_some(), "subscribed coin is served from cache");
}

#[test]
fn drive_loop_tracks_peak_from_new_peak_wallet() {
    let (mut sim, mut client, _coin) = client_over_sim();
    sim.create_block();
    let push = chia_protocol::NewPeakWallet::new(sim.header_hash(), sim.height(), 0, 0);
    let data = push.to_bytes().unwrap();
    handle_message(&mut client.cache, MessageKind::NewPeakWallet, &data);
    let peak = client.peak();
    assert!(
        peak.is_some(),
        "the drive-loop records a peak from NewPeakWallet"
    );
    assert_eq!(peak, Some((1, ours(sim.header_hash()))));
}

#[test]
fn submit_invalid_bundle_reports_failure() {
    let (mut sim, client, _coin) = client_over_sim();
    let bundle = SpendBundle::new(vec![], chia::bls::Signature::default());
    let answer = send_transaction(&mut sim, &client.fetcher, bundle);
    let outcome = ChiaLightClient::<u8>::submit_spend(answer).unwrap();
    assert_eq!(outcome, SubmitOutcome::Failed);
}

#[test]
fn subscribe_puzzle_hashes_and_unsubscribe_coins() {
    let (sim, mut client, coin) = client_over_sim();
    let id = coin.coin_id();
    let hashes = vec![coin.puzzle_hash];
    let answer = puzzle_states(&sim, &client.fetcher, hashes.clone(), all_filters(), true);
    client.subscribe_puzzle_hashes(&hashes, answer).unwrap();
    let answer = coin_states(&sim, &client.fetcher, vec![id], true);
    client.subscribe_coins(&[id], answer).unwrap();
    let (_peer, removed) = client.fetcher.remove_coin_subscriptions(vec![id]).unwrap();
    let answer = Fetcher::remove_coin_subscriptions_reply(PeerReply::Answered(()));
    client.unsubscribe_coins(&removed, answer).unwrap();
    assert!(!client.cache.is_subscribed_coin(id));
    assert_eq!(client.cache.subscribed_puzzle_hashes(), hashes);
    assert!(client.cache.get(id).is_some());
}
