//! [`PeerFetcher`]: what is asked of a connected peer for each read, and what its replies mean; and
//! [`PagedRead`], the bounded reading of a reply that comes in pages.
//!
//! A read goes in two steps. The first names the peer and the request, or fails closed if there is
//! no peer; the second turns the peer's reply into the answer or an error. A reply that is late,
//! broken or a refusal is always an error, never an absence.

use vstd::prelude::*;

use crate::bytes::Bytes32;
use crate::config::Timeout;
use crate::error::{ChiaPeerError, ChiaPeerErrorView};
use crate::protocol::{CoinState, CoinStateFilters};

verus! {

/// How many pages one paged read may take.
pub const MAX_PUZZLE_STATE_PAGES: usize = 10_000;

/// How many coin states one paged read may gather.
pub const MAX_ACCUMULATED_COIN_STATES: usize = 500_000;

/// A request for the state of coins by id.
#[derive(Debug, Clone, PartialEq, Eq)]
pub struct CoinStatesRequest {
    /// The coins asked for.
    pub coin_ids: Vec<Bytes32>,
    /// The height up to which the client already knows the state.
    pub previous_height: Option<u32>,
    /// The hash of the header at that height, or the genesis challenge.
    pub header_hash: Bytes32,
    /// Whether the peer is to report later changes.
    pub subscribe: bool,
}

/// A request for one page of the coins that pay to puzzle hashes.
#[derive(Debug, Clone, PartialEq, Eq)]
pub struct PuzzleStatesRequest {
    /// The puzzle hashes asked for.
    pub puzzle_hashes: Vec<Bytes32>,
    /// The height up to which earlier pages reached.
    pub previous_height: Option<u32>,
    /// The hash of the header at that height, or the genesis challenge.
    pub header_hash: Bytes32,
    /// Which coins to include.
    pub filters: CoinStateFilters,
    /// Whether the peer is to report later changes.
    pub subscribe: bool,
}

/// How a peer replied to a request.
#[derive(Debug, Clone, PartialEq, Eq)]
pub enum PeerReply<T> {
    /// With a response.
    Answered(T),
    /// Not at all: the connection failed, with this message.
    Failed(String),
    /// Not within the request timeout.
    TimedOut,
}

/// What a peer says to a request that it may refuse.
#[derive(Debug, Clone, PartialEq, Eq)]
pub enum Verdict<T> {
    /// It grants the request.
    Granted(T),
    /// It refuses the request.
    Refused,
}

impl<T> PeerReply<T> {
    /// `answer` is what this reply comes to.
    pub open spec fn settles(self, answer: Result<T, ChiaPeerError>) -> bool {
        match self {
            PeerReply::Answered(response) => answer == Ok::<T, ChiaPeerError>(response),
            PeerReply::Failed(message) => answer is Err && answer->Err_0@
                == ChiaPeerErrorView::Transport(message@),
            PeerReply::TimedOut => answer is Err && answer->Err_0@ == ChiaPeerErrorView::Timeout,
        }
    }

    /// The response, or why there is none.
    pub fn settle(self) -> (answer: Result<T, ChiaPeerError>)
        ensures
            self.settles(answer),
    {
        match self {
            PeerReply::Answered(response) => Ok(response),
            PeerReply::Failed(message) => Err(ChiaPeerError::Transport(message)),
            PeerReply::TimedOut => Err(ChiaPeerError::Timeout),
        }
    }
}

impl<T> PeerReply<Verdict<T>> {
    /// `answer` is what this reply comes to, `refusal` being the message for a refusal.
    pub open spec fn grants(self, refusal: Seq<char>, answer: Result<T, ChiaPeerError>) -> bool {
        match self {
            PeerReply::Answered(Verdict::Granted(response)) => answer == Ok::<T, ChiaPeerError>(
                response,
            ),
            PeerReply::Answered(Verdict::Refused) => answer is Err && answer->Err_0@
                == ChiaPeerErrorView::Rejected(refusal),
            PeerReply::Failed(message) => answer is Err && answer->Err_0@
                == ChiaPeerErrorView::Transport(message@),
            PeerReply::TimedOut => answer is Err && answer->Err_0@ == ChiaPeerErrorView::Timeout,
        }
    }

    /// What was granted, or why nothing was.
    pub fn settle_verdict(self, refusal: &str) -> (answer: Result<T, ChiaPeerError>)
        ensures
            self.grants(refusal@, answer),
    {
        match self.settle() {
            Ok(Verdict::Granted(response)) => Ok(response),
            Ok(Verdict::Refused) => Err(ChiaPeerError::Rejected(refusal.to_string())),
            Err(error) => Err(error),
        }
    }
}

/// A reply comes to an answer only if it is a response: a failure or a timeout is an error.
pub proof fn law_only_a_response_is_an_answer<T>(
    reply: PeerReply<T>,
    answer: Result<T, ChiaPeerError>,
)
    requires
        reply.settles(answer),
    ensures
        answer is Ok <==> reply is Answered,
{
}

/// A reply to a request that may be refused comes to an answer only if the request is granted: a
/// refusal, a failure or a timeout is an error.
pub proof fn law_only_a_grant_is_an_answer<T>(
    reply: PeerReply<Verdict<T>>,
    refusal: Seq<char>,
    answer: Result<T, ChiaPeerError>,
)
    requires
        reply.grants(refusal, answer),
    ensures
        answer is Ok <==> (reply is Answered && reply->Answered_0 is Granted),
{
}

/// Reads through a peer, of type `P`, that can be replaced.
pub struct PeerFetcher<P> {
    /// The peer, if the client is connected.
    pub peer: Option<P>,
    /// Stands for the header hash when state is read from height zero.
    pub genesis_challenge: Bytes32,
    /// How long one request may take.
    pub request_timeout: Timeout,
}

impl<P: Clone> PeerFetcher<P> {
    /// A fetcher over `peer`.
    pub fn new(peer: P, genesis_challenge: Bytes32, request_timeout: Timeout) -> (fetcher: Self)
        ensures
            fetcher == (PeerFetcher { peer: Some(peer), genesis_challenge, request_timeout }),
    {
        PeerFetcher { peer: Some(peer), genesis_challenge, request_timeout }
    }

    /// A fetcher without a peer, on which every read fails.
    pub fn disconnected(genesis_challenge: Bytes32, request_timeout: Timeout) -> (fetcher: Self)
        ensures
            fetcher == (PeerFetcher::<P> { peer: None, genesis_challenge, request_timeout }),
    {
        PeerFetcher { peer: None, genesis_challenge, request_timeout }
    }

    /// Replaces the peer.
    pub fn swap_peer(&mut self, peer: P)
        ensures
            *final(self) == (PeerFetcher { peer: Some(peer), ..*old(self) }),
    {
        self.peer = Some(peer);
    }

    /// `outcome` is a request to the fetcher's peer that satisfies `asked`, or the report that there
    /// is no peer.
    pub open spec fn asks<R>(
        self,
        outcome: Result<(P, R), ChiaPeerError>,
        asked: spec_fn(R) -> bool,
    ) -> bool {
        match self.peer {
            Some(peer) => outcome is Ok && cloned(peer, (outcome->Ok_0).0) && asked(
                (outcome->Ok_0).1,
            ),
            None => outcome is Err && outcome->Err_0 is NotConnected,
        }
    }

    /// A clone of the peer, or the report that there is none.
    pub fn peer(&self) -> (peer: Result<P, ChiaPeerError>)
        ensures
            match self.peer {
                Some(held) => peer is Ok && cloned(held, peer->Ok_0),
                None => peer is Err && peer->Err_0 is NotConnected,
            },
    {
        match &self.peer {
            Some(held) => Ok(held.clone()),
            None => Err(ChiaPeerError::NotConnected),
        }
    }

    /// Asks for the state of `coin_ids` from height zero on.
    pub fn coin_states(&self, coin_ids: Vec<Bytes32>, subscribe: bool) -> (outcome: Result<
        (P, CoinStatesRequest),
        ChiaPeerError,
    >)
        ensures
            self.asks(
                outcome,
                |request: CoinStatesRequest|
                    request == (CoinStatesRequest {
                        coin_ids,
                        previous_height: None,
                        header_hash: self.genesis_challenge,
                        subscribe,
                    }),
            ),
    {
        match self.peer() {
            Ok(peer) => Ok(
                (
                    peer,
                    CoinStatesRequest {
                        coin_ids,
                        previous_height: None,
                        header_hash: self.genesis_challenge,
                        subscribe,
                    },
                ),
            ),
            Err(error) => Err(error),
        }
    }

    /// What a reply to a coin-state request comes to. A response without coins is an absence.
    pub fn coin_states_reply(reply: PeerReply<Verdict<Vec<CoinState>>>) -> (answer: Result<
        Vec<CoinState>,
        ChiaPeerError,
    >)
        ensures
            reply.grants("coin-state request rejected"@, answer),
    {
        reply.settle_verdict("coin-state request rejected")
    }

    /// Starts a paged read of the coins that pay to puzzle hashes, all of it from one peer.
    pub fn puzzle_states(&self) -> (outcome: Result<(P, PagedRead), ChiaPeerError>)
        ensures
            self.asks(
                outcome,
                |read: PagedRead| read@ == PagedReadView::start(self.genesis_challenge),
            ),
    {
        match self.peer() {
            Ok(peer) => Ok((peer, PagedRead::start(self.genesis_challenge))),
            Err(error) => Err(error),
        }
    }

    /// What a reply to a request for one page comes to.
    pub fn puzzle_states_reply(reply: PeerReply<Verdict<PuzzleStatePage>>) -> (answer: Result<
        PuzzleStatePage,
        ChiaPeerError,
    >)
        ensures
            reply.grants("puzzle-state request rejected"@, answer),
    {
        reply.settle_verdict("puzzle-state request rejected")
    }

    /// Asks for the coins that the spend of `coin_id` created.
    pub fn children(&self, coin_id: Bytes32) -> (outcome: Result<(P, Bytes32), ChiaPeerError>)
        ensures
            self.asks(outcome, |request: Bytes32| request == coin_id),
    {
        match self.peer() {
            Ok(peer) => Ok((peer, coin_id)),
            Err(error) => Err(error),
        }
    }

    /// What a reply to a request for children comes to.
    pub fn children_reply(reply: PeerReply<Vec<CoinState>>) -> (answer: Result<
        Vec<CoinState>,
        ChiaPeerError,
    >)
        ensures
            reply.settles(answer),
    {
        reply.settle()
    }

    /// Asks for the puzzle and solution of the coin spent at `height`.
    pub fn puzzle_and_solution(&self, coin_id: Bytes32, height: u32) -> (outcome: Result<
        (P, (Bytes32, u32)),
        ChiaPeerError,
    >)
        ensures
            self.asks(outcome, |request: (Bytes32, u32)| request == (coin_id, height)),
    {
        match self.peer() {
            Ok(peer) => Ok((peer, (coin_id, height))),
            Err(error) => Err(error),
        }
    }

    /// What a reply to a request for a puzzle and solution comes to. It is asked only for a coin
    /// known to be spent, so a refusal is no absence: it is an error.
    pub fn puzzle_and_solution_reply(
        reply: PeerReply<Verdict<(Vec<u8>, Vec<u8>)>>,
    ) -> (answer: Result<(Vec<u8>, Vec<u8>), ChiaPeerError>)
        ensures
            reply.grants("peer rejected puzzle/solution for a known-spent coin"@, answer),
    {
        reply.settle_verdict("peer rejected puzzle/solution for a known-spent coin")
    }

    /// Submits `bundle`, of type `B`, which is handed on as it is.
    pub fn send_transaction<B>(&self, bundle: B) -> (outcome: Result<(P, B), ChiaPeerError>)
        ensures
            self.asks(outcome, |request: B| request == bundle),
    {
        match self.peer() {
            Ok(peer) => Ok((peer, bundle)),
            Err(error) => Err(error),
        }
    }

    /// What a reply to a submission comes to: the status byte of the acknowledgement.
    pub fn send_transaction_reply(reply: PeerReply<u8>) -> (answer: Result<u8, ChiaPeerError>)
        ensures
            reply.settles(answer),
    {
        reply.settle()
    }

    /// Asks the peer to stop reporting changes of `coin_ids`.
    pub fn remove_coin_subscriptions(&self, coin_ids: Vec<Bytes32>) -> (outcome: Result<
        (P, Vec<Bytes32>),
        ChiaPeerError,
    >)
        ensures
            self.asks(outcome, |request: Vec<Bytes32>| request == coin_ids),
    {
        match self.peer() {
            Ok(peer) => Ok((peer, coin_ids)),
            Err(error) => Err(error),
        }
    }

    /// What a reply to a request to stop reporting comes to.
    pub fn remove_coin_subscriptions_reply(reply: PeerReply<()>) -> (answer: Result<
        (),
        ChiaPeerError,
    >)
        ensures
            reply.settles(answer),
    {
        reply.settle()
    }
}

/// One page of the coins that pay to puzzle hashes.
#[derive(Debug, Clone, PartialEq, Eq)]
pub struct PuzzleStatePage {
    /// The coins on this page.
    pub coin_states: Vec<CoinState>,
    /// The height up to which this page reaches.
    pub height: u32,
    /// The hash of the header at that height.
    pub header_hash: Bytes32,
    /// Whether this is the last page.
    pub is_finished: bool,
}

/// What a [`PuzzleStatePage`] says.
#[verifier::ext_equal]
pub struct PuzzleStatePageView {
    pub coin_states: Seq<CoinState>,
    pub height: u32,
    pub header_hash: Bytes32,
    pub is_finished: bool,
}

impl View for PuzzleStatePage {
    type V = PuzzleStatePageView;

    open spec fn view(&self) -> PuzzleStatePageView {
        PuzzleStatePageView {
            coin_states: self.coin_states@,
            height: self.height,
            header_hash: self.header_hash,
            is_finished: self.is_finished,
        }
    }
}

/// How far a paged read has come.
#[verifier::ext_equal]
pub struct PagedReadView {
    /// The coins gathered so far.
    pub coin_states: Seq<CoinState>,
    /// How many pages they came from.
    pub pages: nat,
    /// The height up to which those pages reached.
    pub previous_height: Option<u32>,
    /// The hash of the header at that height, or the genesis challenge.
    pub header_hash: Bytes32,
}

/// What one page makes of a paged read.
#[verifier::ext_equal]
pub enum PagedStepView {
    /// Another page is needed.
    More(PagedReadView),
    /// The read is complete.
    Done(Seq<CoinState>),
    /// The read has failed.
    Failed(ChiaPeerErrorView),
}

impl PagedReadView {
    /// A read before its first page.
    pub open spec fn start(genesis_challenge: Bytes32) -> Self {
        PagedReadView {
            coin_states: Seq::empty(),
            pages: 0,
            previous_height: None,
            header_hash: genesis_challenge,
        }
    }

    /// There is room for another page.
    pub open spec fn within_bounds(self) -> bool {
        &&& self.pages < MAX_PUZZLE_STATE_PAGES
        &&& self.coin_states.len() <= MAX_ACCUMULATED_COIN_STATES
    }

    /// The read after its next page. The page's coins are gathered first; then too many coins fail
    /// the read, a last page completes it, a page that reaches no higher than the one before fails
    /// it, and too many pages fail it.
    pub open spec fn after_page(self, page: PuzzleStatePageView) -> PagedStepView {
        let gathered = self.coin_states + page.coin_states;
        if gathered.len() > MAX_ACCUMULATED_COIN_STATES {
            PagedStepView::Failed(
                ChiaPeerErrorView::Rejected("puzzle-state response exceeded 500000 coins"@),
            )
        } else if page.is_finished {
            PagedStepView::Done(gathered)
        } else if self.previous_height is Some && page.height <= self.previous_height->0 {
            PagedStepView::Failed(
                ChiaPeerErrorView::Rejected("puzzle-state paging did not advance the height"@),
            )
        } else if self.pages + 1 >= MAX_PUZZLE_STATE_PAGES {
            PagedStepView::Failed(
                ChiaPeerErrorView::Rejected("puzzle-state paging exceeded 10000 pages"@),
            )
        } else {
            PagedStepView::More(
                PagedReadView {
                    coin_states: gathered,
                    pages: self.pages + 1,
                    previous_height: Some(page.height),
                    header_hash: page.header_hash,
                },
            )
        }
    }
}

/// A paged read in progress. An untrusted peer can neither keep it going for ever nor make it fill
/// the memory: the pages and the coins are bounded, and every page must reach higher than the one
/// before.
pub struct PagedRead {
    coin_states: Vec<CoinState>,
    pages: usize,
    previous_height: Option<u32>,
    header_hash: Bytes32,
}

impl View for PagedRead {
    type V = PagedReadView;

    closed spec fn view(&self) -> PagedReadView {
        PagedReadView {
            coin_states: self.coin_states@,
            pages: self.pages as nat,
            previous_height: self.previous_height,
            header_hash: self.header_hash,
        }
    }
}

/// What one page makes of a paged read.
pub enum PagedStep {
    /// Another page is needed.
    More(PagedRead),
    /// The read is complete, with these coins.
    Done(Vec<CoinState>),
    /// The read has failed.
    Failed(ChiaPeerError),
}

impl View for PagedStep {
    type V = PagedStepView;

    open spec fn view(&self) -> PagedStepView {
        match *self {
            PagedStep::More(read) => PagedStepView::More(read@),
            PagedStep::Done(coin_states) => PagedStepView::Done(coin_states@),
            PagedStep::Failed(error) => PagedStepView::Failed(error@),
        }
    }
}

impl PagedRead {
    /// A read before its first page, from height zero on.
    pub fn start(genesis_challenge: Bytes32) -> (read: Self)
        ensures
            read@ == PagedReadView::start(genesis_challenge),
    {
        PagedRead {
            coin_states: Vec::new(),
            pages: 0,
            previous_height: None,
            header_hash: genesis_challenge,
        }
    }

    /// The request for the next page.
    pub fn request(
        &self,
        puzzle_hashes: Vec<Bytes32>,
        filters: CoinStateFilters,
        subscribe: bool,
    ) -> (request: PuzzleStatesRequest)
        ensures
            request == (PuzzleStatesRequest {
                puzzle_hashes,
                previous_height: self@.previous_height,
                header_hash: self@.header_hash,
                filters,
                subscribe,
            }),
    {
        PuzzleStatesRequest {
            puzzle_hashes,
            previous_height: self.previous_height,
            header_hash: self.header_hash,
            filters,
            subscribe,
        }
    }

    /// The request for the next page of a read that subscribes to `puzzle_hashes`.
    pub fn subscription_request(
        &self,
        puzzle_hashes: Vec<Bytes32>,
        filters: CoinStateFilters,
    ) -> (request: PuzzleStatesRequest)
        ensures
            request == (PuzzleStatesRequest {
                puzzle_hashes,
                previous_height: self@.previous_height,
                header_hash: self@.header_hash,
                filters,
                subscribe: true,
            }),
    {
        self.request(puzzle_hashes, filters, true)
    }

    /// Takes the next page in, or the failure to read it.
    pub fn take_page(self, fetched: Result<PuzzleStatePage, ChiaPeerError>) -> (step: PagedStep)
        ensures
            match fetched {
                Ok(page) => step@ == self@.after_page(page@),
                Err(error) => step@ == PagedStepView::Failed(error@),
            },
            step is More ==> step->More_0@.within_bounds(),
    {
        let page = match fetched {
            Ok(page) => page,
            Err(error) => return PagedStep::Failed(error),
        };
        let mut gathered = self.coin_states;
        let mut more = page.coin_states;
        gathered.append(&mut more);
        if gathered.len() > MAX_ACCUMULATED_COIN_STATES {
            return PagedStep::Failed(
                ChiaPeerError::Rejected("puzzle-state response exceeded 500000 coins".to_string()),
            );
        }
        if page.is_finished {
            return PagedStep::Done(gathered);
        }
        let stuck = match self.previous_height {
            Some(previous) => page.height <= previous,
            None => false,
        };
        if stuck {
            return PagedStep::Failed(
                ChiaPeerError::Rejected(
                    "puzzle-state paging did not advance the height".to_string(),
                ),
            );
        }
        if self.pages >= MAX_PUZZLE_STATE_PAGES - 1 {
            return PagedStep::Failed(
                ChiaPeerError::Rejected("puzzle-state paging exceeded 10000 pages".to_string()),
            );
        }
        PagedStep::More(
            PagedRead {
                coin_states: gathered,
                pages: self.pages + 1,
                previous_height: Some(page.height),
                header_hash: page.header_hash,
            },
        )
    }
}

impl PagedReadView {
    /// The read after `pages`, as far as it takes them in.
    pub open spec fn after_pages(self, pages: Seq<PuzzleStatePageView>) -> PagedStepView
        decreases pages.len(),
    {
        if pages.len() == 0 {
            PagedStepView::More(self)
        } else {
            match self.after_pages(pages.drop_last()) {
                PagedStepView::More(read) => read.after_page(pages.last()),
                ended => ended,
            }
        }
    }
}

/// The coins on all `pages`, in order.
pub open spec fn coins_on(pages: Seq<PuzzleStatePageView>) -> Seq<CoinState>
    decreases pages.len(),
{
    if pages.len() == 0 {
        Seq::empty()
    } else {
        coins_on(pages.drop_last()) + pages.last().coin_states
    }
}

/// None of `pages` is the last one, and each reaches higher than the one before.
pub open spec fn advancing(pages: Seq<PuzzleStatePageView>) -> bool {
    &&& forall|i: int| 0 <= i < pages.len() ==> !(#[trigger] pages[i]).is_finished
    &&& forall|i: int, j: int|
        0 <= i < j < pages.len() ==> (#[trigger] pages[i]).height < (#[trigger] pages[j]).height
}

/// A read goes on exactly as long as its pages advance and stay within the bounds, and it has then
/// gathered the coins on all of them.
pub proof fn law_paging_goes_on_while_pages_advance(
    genesis_challenge: Bytes32,
    pages: Seq<PuzzleStatePageView>,
)
    ensures
        PagedReadView::start(genesis_challenge).after_pages(pages) is More <==> {
            &&& advancing(pages)
            &&& pages.len() < MAX_PUZZLE_STATE_PAGES
            &&& coins_on(pages).len() <= MAX_ACCUMULATED_COIN_STATES
        },
        PagedReadView::start(genesis_challenge).after_pages(pages) matches PagedStepView::More(
            read,
        ) ==> {
            &&& read.coin_states == coins_on(pages)
            &&& read.pages == pages.len()
            &&& pages.len() > 0 ==> read.previous_height == Some(pages.last().height)
            &&& pages.len() > 0 ==> read.header_hash == pages.last().header_hash
            &&& pages.len() == 0 ==> read == PagedReadView::start(genesis_challenge)
        },
    decreases pages.len(),
{
    if pages.len() > 0 {
        let earlier = pages.drop_last();
        law_paging_goes_on_while_pages_advance(genesis_challenge, earlier);
        assert(forall|i: int| 0 <= i < earlier.len() ==> earlier[i] == #[trigger] pages[i]);
        if advancing(pages) {
            assert(advancing(earlier));
            if earlier.len() > 0 {
                assert(pages[earlier.len() - 1].height < pages[pages.len() - 1].height);
            }
        }
        if PagedReadView::start(genesis_challenge).after_pages(pages) is More {
            assert forall|i: int, j: int| 0 <= i < j < pages.len() implies (
            #[trigger] pages[i]).height < (#[trigger] pages[j]).height by {
                if j == pages.len() - 1 && i < earlier.len() - 1 {
                    assert(earlier[i].height < earlier[earlier.len() - 1].height);
                } else if j < pages.len() - 1 {
                    assert(earlier[i].height < earlier[j].height);
                }
            }
        }
    }
}

/// A read completes at a page exactly if that page is the last one, the pages before it advance, and
/// all of them stay within the bounds; it then returns the coins on every page, in order.
pub proof fn law_paging_returns_every_page(
    genesis_challenge: Bytes32,
    earlier: Seq<PuzzleStatePageView>,
    last: PuzzleStatePageView,
)
    requires
        PagedReadView::start(genesis_challenge).after_pages(earlier) is More,
    ensures
        PagedReadView::start(genesis_challenge).after_pages(earlier.push(last)) is Done
            <==> last.is_finished && coins_on(earlier.push(last)).len()
            <= MAX_ACCUMULATED_COIN_STATES,
        PagedReadView::start(genesis_challenge).after_pages(
            earlier.push(last),
        ) matches PagedStepView::Done(coin_states) ==> coin_states == coins_on(earlier.push(last)),
{
    law_paging_goes_on_while_pages_advance(genesis_challenge, earlier);
    assert(earlier.push(last).drop_last() =~= earlier);
}

/// However a peer answers, a read has ended after [`MAX_PUZZLE_STATE_PAGES`] pages, and it never
/// returns more than [`MAX_ACCUMULATED_COIN_STATES`] coins.
pub proof fn law_paging_is_bounded(genesis_challenge: Bytes32, pages: Seq<PuzzleStatePageView>)
    ensures
        pages.len() >= MAX_PUZZLE_STATE_PAGES ==> !(PagedReadView::start(
            genesis_challenge,
        ).after_pages(pages) is More),
        PagedReadView::start(genesis_challenge).after_pages(pages) matches PagedStepView::Done(
            coin_states,
        ) ==> coin_states.len() <= MAX_ACCUMULATED_COIN_STATES,
    decreases pages.len(),
{
    law_paging_goes_on_while_pages_advance(genesis_challenge, pages);
    if pages.len() > 0 {
        law_paging_is_bounded(genesis_challenge, pages.drop_last());
    }
}

/// What each reply comes to: a response is handed on as it is, a failed connection is a transport
/// error with its message, and a late reply is a timeout.
pub proof fn law_what_each_reply_comes_to<T>(
    reply: PeerReply<T>,
    answer: Result<T, ChiaPeerError>,
)
    requires
        reply.settles(answer),
    ensures
        reply is Answered ==> answer is Ok && answer->Ok_0 == reply->Answered_0,
        reply is Failed ==> answer is Err && answer->Err_0 is Transport
            && answer->Err_0->Transport_0@ == reply->Failed_0@,
        reply is TimedOut ==> answer is Err && answer->Err_0 is Timeout,
{
}

/// What each reply to a request that may be refused comes to: what is granted is handed on as it is,
/// a refusal is a rejection with the message given, a failed connection is a transport error with
/// its message, and a late reply is a timeout.
pub proof fn law_what_each_verdict_comes_to<T>(
    reply: PeerReply<Verdict<T>>,
    refusal: Seq<char>,
    answer: Result<T, ChiaPeerError>,
)
    requires
        reply.grants(refusal, answer),
    ensures
        reply is Answered && reply->Answered_0 is Granted ==> answer is Ok && answer->Ok_0
            == reply->Answered_0->Granted_0,
        reply is Answered && reply->Answered_0 is Refused ==> answer is Err
            && answer->Err_0 is Rejected && answer->Err_0->Rejected_0@ == refusal,
        reply is Failed ==> answer is Err && answer->Err_0 is Transport
            && answer->Err_0->Transport_0@ == reply->Failed_0@,
        reply is TimedOut ==> answer is Err && answer->Err_0 is Timeout,
{
}

/// A request goes out exactly if there is a peer: to a clone of that peer, and as it was asked.
/// Without a peer the answer is that the client is not connected.
pub proof fn law_requests_need_a_peer<P: Clone, R>(
    fetcher: PeerFetcher<P>,
    outcome: Result<(P, R), ChiaPeerError>,
    asked: spec_fn(R) -> bool,
)
    requires
        fetcher.asks(outcome, asked),
    ensures
        outcome is Ok <==> fetcher.peer is Some,
        outcome is Ok ==> cloned(fetcher.peer->0, (outcome->Ok_0).0) && asked((outcome->Ok_0).1),
        outcome is Err ==> outcome->Err_0 is NotConnected,
{
}

/// A paged read starts from height zero, with nothing gathered, at the genesis challenge.
pub proof fn law_how_a_paged_read_starts(genesis_challenge: Bytes32)
    ensures
        PagedReadView::start(genesis_challenge).coin_states.len() == 0,
        PagedReadView::start(genesis_challenge).pages == 0,
        PagedReadView::start(genesis_challenge).previous_height is None,
        PagedReadView::start(genesis_challenge).header_hash == genesis_challenge,
{
}

/// What the next page makes of a paged read. Over 500,000 coins in all, the read fails; otherwise a
/// last page ends it; otherwise a page that reaches no higher than the one before fails it, and so
/// does the ten-thousandth page. Whatever goes on or ends has gathered the coins of the page behind
/// those it had, and what goes on does so from that page's height and header hash.
pub proof fn law_what_a_page_makes_of_a_read(read: PagedReadView, page: PuzzleStatePageView)
    ensures
        ({
            let total = read.coin_states.len() + page.coin_states.len();
            let stuck = read.previous_height is Some && page.height <= read.previous_height->0;
            let step = read.after_page(page);
            &&& total > 500_000 ==> step == PagedStepView::Failed(
                ChiaPeerErrorView::Rejected("puzzle-state response exceeded 500000 coins"@),
            )
            &&& total <= 500_000 && page.is_finished ==> step is Done
            &&& total <= 500_000 && !page.is_finished && stuck ==> step == PagedStepView::Failed(
                ChiaPeerErrorView::Rejected("puzzle-state paging did not advance the height"@),
            )
            &&& total <= 500_000 && !page.is_finished && !stuck && read.pages >= 9_999 ==> step
                == PagedStepView::Failed(
                ChiaPeerErrorView::Rejected("puzzle-state paging exceeded 10000 pages"@),
            )
            &&& total <= 500_000 && !page.is_finished && !stuck && read.pages < 9_999 ==> {
                &&& step is More
                &&& step->More_0.pages == read.pages + 1
                &&& step->More_0.previous_height == Some(page.height)
                &&& step->More_0.header_hash == page.header_hash
            }
            &&& step is Done ==> step->Done_0.len() == total && read.coin_states.is_prefix_of(
                step->Done_0,
            ) && page.coin_states.is_suffix_of(step->Done_0)
            &&& step is More ==> step->More_0.coin_states.len() == total
                && read.coin_states.is_prefix_of(step->More_0.coin_states)
                && page.coin_states.is_suffix_of(step->More_0.coin_states)
        }),
{
    let gathered = read.coin_states + page.coin_states;
    assert(gathered.subrange(0, read.coin_states.len() as int) =~= read.coin_states);
    assert(gathered.subrange(read.coin_states.len() as int, gathered.len() as int)
        =~= page.coin_states);
}

/// A read that goes on has taken fewer than ten thousand pages and at most 500,000 coins.
pub proof fn law_the_bounds_of_a_read(read: PagedReadView)
    ensures
        read.within_bounds() <==> read.pages < 10_000 && read.coin_states.len() <= 500_000,
{
}

/// A page says what it holds.
pub proof fn law_pages_say_what_they_hold(page: PuzzleStatePage)
    ensures
        page@.coin_states == page.coin_states@,
        page@.height == page.height,
        page@.header_hash == page.header_hash,
        page@.is_finished == page.is_finished,
{
}

} // verus!
