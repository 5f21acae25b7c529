use chia_peer::config::Timeout;
use chia_peer::fetcher::{
    CoinStatesRequest, PagedRead, PagedStep, PeerReply, PuzzleStatePage, PuzzleStatesRequest,
    Verdict, MAX_ACCUMULATED_COIN_STATES, MAX_PUZZLE_STATE_PAGES,
};
use chia_peer::protocol::{Coin, CoinState, CoinStateFilters};
use chia_peer::{Bytes32, ChiaNetwork, ChiaPeerError, PeerFetcher};

fn genesis() -> Bytes32 {
    ChiaNetwork::Testnet11.genesis_challenge()
}

fn page(states: usize, height: u32, is_finished: bool) -> PuzzleStatePage {
    PuzzleStatePage {
        coin_states: (0..states)
            .map(|_| CoinState {
                coin: Coin::new(Bytes32::new([1; 32]), Bytes32::new([2; 32]), 1),
                created_height: Some(height),
                spent_height: None,
            })
            .collect(),
        height,
        header_hash: Bytes32::new([height as u8; 32]),
        is_finished,
    }
}

fn all_filters() -> CoinStateFilters {
    CoinStateFilters {
        include_spent: true,
        include_unspent: true,
        include_hinted: true,
        min_amount: 0,
    }
}

/// Drives a paged read to its end, handing each request to `fetch_page`.
fn collect_paged(
    genesis_challenge: Bytes32,
    mut fetch_page: impl FnMut(Option<u32>, Bytes32) -> Result<PuzzleStatePage, ChiaPeerError>,
) -> Result<Vec<CoinState>, ChiaPeerError> {
    let mut read = PagedRead::start(genesis_challenge);
    loop {
        let request = read.request(vec![], all_filters(), false);
        match read.take_page(fetch_page(request.previous_height, request.header_hash)) {
            PagedStep::More(next) => read = next,
            PagedStep::Done(states) => return Ok(states),
            PagedStep::Failed(error) => return Err(error),
        }
    }
}

#[test]
fn paging_that_never_finishes_fails_closed_not_hangs() {
    // A hostile peer that always advances height but never finishes must hit the page cap.
    let mut next_height = 0u32;
    let result = collect_paged(Bytes32::default(), |_prev, _hdr| {
        next_height += 1;
        Ok(page(1, next_height, false))
    });
    assert!(
        matches!(result, Err(ChiaPeerError::Rejected(_))),
        "{result:?}"
    );
    assert_eq!(
        result,
        Err(ChiaPeerError::Rejected(
            "puzzle-state paging exceeded 10000 pages".into()
        ))
    );
    assert_eq!(next_height as usize, MAX_PUZZLE_STATE_PAGES);
}

#[test]
fn paging_without_progress_fails_closed() {
    // A peer that returns unfinished pages at a height that does not advance is rejected.
    let result = collect_paged(Bytes32::default(), |_prev, _hdr| Ok(page(1, 42, false)));
    assert!(
        matches!(result, Err(ChiaPeerError::Rejected(_))),
        "{result:?}"
    );
    assert_eq!(
        result,
        Err(ChiaPeerError::Rejected(
            "puzzle-state paging did not advance the height".into()
        ))
    );
}

#[test]
fn paging_over_coin_cap_fails_closed() {
    let result = collect_paged(Bytes32::default(), |_prev, _hdr| {
        Ok(page(MAX_ACCUMULATED_COIN_STATES + 1, 1, false))
    });
    assert!(
        matches!(result, Err(ChiaPeerError::Rejected(_))),
        "{result:?}"
    );
    assert_eq!(
        result,
        Err(ChiaPeerError::Rejected(
            "puzzle-state response exceeded 500000 coins".into()
        ))
    );
}

#[test]
fn paging_finishes_normally_returns_all() {
    let mut calls = 0u32;
    let result = collect_paged(Bytes32::default(), |_prev, _hdr| {
        calls += 1;
        Ok(page(1, calls, calls == 2))
    })
    .unwrap();
    assert_eq!(result.len(), 2, "both pages accumulated then finished");
    assert_eq!(result[0].created_height, Some(1));
    assert_eq!(result[1].created_height, Some(2));
}

#[test]
fn paging_over_the_cap_fails_even_on_the_last_page() {
    let over = collect_paged(genesis(), |_prev, _hdr| {
        Ok(page(MAX_ACCUMULATED_COIN_STATES + 1, 1, true))
    });
    assert!(matches!(over, Err(ChiaPeerError::Rejected(_))));
    let at = collect_paged(genesis(), |_prev, _hdr| {
        Ok(page(MAX_ACCUMULATED_COIN_STATES, 1, true))
    });
    assert_eq!(at.unwrap().len(), MAX_ACCUMULATED_COIN_STATES);
}

#[test]
fn paging_may_finish_without_advancing() {
    let mut calls = 0u32;
    let result = collect_paged(genesis(), |_prev, _hdr| {
        calls += 1;
        Ok(page(1, 5, calls == 2))
    });
    assert_eq!(result.unwrap().len(), 2);
}

#[test]
fn paging_continues_from_the_last_page() {
    let mut asked = vec![];
    let result = collect_paged(genesis(), |previous, header| {
        asked.push((previous, header));
        let n = asked.len() as u32;
        Ok(page(0, n * 10, n == 3))
    });
    assert_eq!(result, Ok(vec![]));
    assert_eq!(
        asked,
        vec![
            (None, genesis()),
            (Some(10), Bytes32::new([10; 32])),
            (Some(20), Bytes32::new([20; 32])),
        ]
    );
}

#[test]
fn paging_stops_at_a_failed_page() {
    let result = collect_paged(genesis(), |previous, _hdr| match previous {
        None => Ok(page(1, 1, false)),
        Some(_) => Err(ChiaPeerError::Timeout),
    });
    assert_eq!(result, Err(ChiaPeerError::Timeout));
}

#[test]
fn disconnected_fetcher_fails_closed_on_every_read() {
    let fetcher = PeerFetcher::<u8>::disconnected(genesis(), Timeout::from_secs(1));
    let id = Bytes32::new([1; 32]);
    assert_eq!(
        fetcher.coin_states(vec![id], false),
        Err(ChiaPeerError::NotConnected)
    );
    assert!(matches!(
        fetcher.puzzle_states(),
        Err(ChiaPeerError::NotConnected)
    ));
    assert_eq!(fetcher.children(id), Err(ChiaPeerError::NotConnected));
    assert_eq!(
        fetcher.puzzle_and_solution(id, 1),
        Err(ChiaPeerError::NotConnected)
    );
    assert_eq!(
        fetcher.remove_coin_subscriptions(vec![id]),
        Err(ChiaPeerError::NotConnected)
    );
    assert_eq!(
        fetcher.send_transaction(chia_protocol::SpendBundle::new(
            vec![],
            chia::bls::Signature::default()
        )),
        Err(ChiaPeerError::NotConnected)
    );
    assert_eq!(fetcher.peer(), Err(ChiaPeerError::NotConnected));
}

#[test]
fn requests_go_to_the_current_peer() {
    let mut fetcher = PeerFetcher::new(1u8, genesis(), Timeout::from_secs(1));
    let id = Bytes32::new([1; 32]);
    assert_eq!(
        fetcher.coin_states(vec![id], true),
        Ok((
            1,
            CoinStatesRequest {
                coin_ids: vec![id],
                previous_height: None,
                header_hash: genesis(),
                subscribe: true,
            }
        ))
    );
    fetcher.swap_peer(2);
    assert_eq!(fetcher.peer(), Ok(2));
    assert_eq!(fetcher.children(id), Ok((2, id)));
    assert_eq!(fetcher.puzzle_and_solution(id, 7), Ok((2, (id, 7))));
    assert_eq!(fetcher.remove_coin_subscriptions(vec![id]), Ok((2, vec![id])));
    assert_eq!(fetcher.send_transaction("bundle"), Ok((2, "bundle")));
    let (peer, read) = fetcher.puzzle_states().unwrap_or_else(|e| panic!("{e:?}"));
    assert_eq!(peer, 2);
    assert_eq!(
        read.subscription_request(vec![id], all_filters()),
        read.request(vec![id], all_filters(), true)
    );
    assert_eq!(
        read.request(vec![id], all_filters(), true),
        PuzzleStatesRequest {
            puzzle_hashes: vec![id],
            previous_height: None,
            header_hash: genesis(),
            filters: all_filters(),
            subscribe: true,
        }
    );
}

#[test]
fn replies_come_to_answers_or_errors() {
    type Fetcher = PeerFetcher<u8>;
    let rejected = |message: &str| ChiaPeerError::Rejected(message.into());

    assert_eq!(
        Fetcher::coin_states_reply(PeerReply::Answered(Verdict::Granted(vec![]))),
        Ok(vec![])
    );
    assert_eq!(
        Fetcher::coin_states_reply(PeerReply::Answered(Verdict::Refused)),
        Err(rejected("coin-state request rejected"))
    );
    assert_eq!(
        Fetcher::puzzle_states_reply(PeerReply::Answered(Verdict::Refused)),
        Err(rejected("puzzle-state request rejected"))
    );
    assert_eq!(
        Fetcher::puzzle_and_solution_reply(PeerReply::Answered(Verdict::Refused)),
        Err(rejected("peer rejected puzzle/solution for a known-spent coin"))
    );
    assert_eq!(
        Fetcher::puzzle_and_solution_reply(PeerReply::Answered(Verdict::Granted((
            vec![1],
            vec![2]
        )))),
        Ok((vec![1], vec![2]))
    );
    assert_eq!(
        Fetcher::children_reply(PeerReply::Failed("socket reset".into())),
        Err(ChiaPeerError::Transport("socket reset".into()))
    );
    assert_eq!(
        Fetcher::send_transaction_reply(PeerReply::Answered(3)),
        Ok(3)
    );
    assert_eq!(
        Fetcher::send_transaction_reply(PeerReply::TimedOut),
        Err(ChiaPeerError::Timeout)
    );
    assert_eq!(
        Fetcher::remove_coin_subscriptions_reply(PeerReply::Answered(())),
        Ok(())
    );
    assert_eq!(
        Fetcher::coin_states_reply(PeerReply::TimedOut),
        Err(ChiaPeerError::Timeout)
    );
    assert_eq!(
        Fetcher::coin_states_reply(PeerReply::Failed("gone".into())),
        Err(ChiaPeerError::Transport("gone".into()))
    );
}
