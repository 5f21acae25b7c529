//! Connection decisions: which identity to present, which addresses to dial and in what order, and
//! when to give up.

use rand::seq::SliceRandom;
use vstd::prelude::*;
use vstd::seq_lib::group_to_multiset_ensures;

use crate::address::SocketAddr;
use crate::config::ChiaPeerConfig;
use crate::error::{ChiaPeerError, ChiaPeerErrorView};
use crate::ordering::{
    law_ordering_is_ipv6_first, law_ordering_preserves_every_candidate, law_what_comes_first,
    order_candidates, ordered,
};
use crate::tls::{generate_certificate, native_tls_connector, Certificate, IdentityConnector};

verus! {

/// Where the client's TLS identity comes from.
#[derive(Debug, Clone, PartialEq, Eq)]
pub enum IdentitySource {
    /// From the configured files.
    Stored { cert_path: String, key_path: String },
    /// From nowhere: a throw-away identity is generated.
    Ephemeral,
}

/// Where `config` takes the TLS identity from: its files if both paths are set, otherwise a
/// throw-away identity.
pub fn identity_source(config: &ChiaPeerConfig) -> (source: IdentitySource)
    ensures
        match source {
            IdentitySource::Stored { cert_path, key_path } => {
                &&& config.tls_cert_path is Some
                &&& cert_path@ == config.tls_cert_path->0@
                &&& config.tls_key_path is Some
                &&& key_path@ == config.tls_key_path->0@
            },
            IdentitySource::Ephemeral => config.tls_cert_path is None || config.tls_key_path
                is None,
        },
{
    match (&config.tls_cert_path, &config.tls_key_path) {
        (Some(cert_path), Some(key_path)) => IdentitySource::Stored {
            cert_path: cert_path.clone(),
            key_path: key_path.clone(),
        },
        _ => IdentitySource::Ephemeral,
    }
}

/// The outcome of one step of the TLS set-up: its value, or its message as a TLS error.
pub fn tls_step<T>(step: Result<T, String>) -> (outcome: Result<T, ChiaPeerError>)
    ensures
        match step {
            Ok(value) => outcome == Ok::<T, ChiaPeerError>(value),
            Err(message) => outcome is Err && outcome->Err_0@ == ChiaPeerErrorView::Tls(message@),
        },
{
    match step {
        Ok(value) => Ok(value),
        Err(message) => Err(ChiaPeerError::Tls(message)),
    }
}

/// The identity to present: the one that was read from the configured files, or a throw-away one.
/// Whatever goes wrong is a TLS error.
pub fn tls_identity(stored: Option<Result<Certificate, String>>) -> (identity: Result<
    Certificate,
    ChiaPeerError,
>)
    ensures
        match stored {
            Some(Ok(loaded)) => identity == Ok::<Certificate, ChiaPeerError>(loaded),
            Some(Err(message)) => identity is Err && identity->Err_0@ == ChiaPeerErrorView::Tls(
                message@,
            ),
            None => match identity {
                Ok(made) => made.is_pem(),
                Err(error) => error is Tls,
            },
        },
{
    match stored {
        Some(loaded) => tls_step(loaded),
        None => tls_step(generate_certificate()),
    }
}

/// Builds the TLS connector for the identity to present. Whatever goes wrong is a TLS error.
pub fn build_connector(stored: Option<Result<Certificate, String>>) -> (built: Result<
    IdentityConnector,
    ChiaPeerError,
>)
    ensures
        match stored {
            Some(Ok(loaded)) => built is Ok ==> built->Ok_0.identity() == loaded,
            Some(Err(message)) => built is Err && built->Err_0@ == ChiaPeerErrorView::Tls(message@),
            None => built is Ok ==> built->Ok_0.identity().is_pem(),
        },
        built is Err ==> built->Err_0 is Tls,
{
    match tls_identity(stored) {
        Ok(identity) => tls_step(native_tls_connector(identity)),
        Err(error) => Err(error),
    }
}

/// The addresses without repetitions, each where it first stands.
pub open spec fn distinct(addrs: Seq<SocketAddr>) -> Seq<SocketAddr>
    decreases addrs.len(),
{
    if addrs.len() == 0 {
        addrs
    } else {
        let earlier = distinct(addrs.drop_last());
        if earlier.contains(addrs.last()) {
            earlier
        } else {
            earlier.push(addrs.last())
        }
    }
}

/// What dropping repetitions leaves: every address once.
proof fn lemma_distinct(addrs: Seq<SocketAddr>)
    ensures
        distinct(addrs).no_duplicates(),
        distinct(addrs).to_set() == addrs.to_set(),
    decreases addrs.len(),
{
    if addrs.len() > 0 {
        let shorter = addrs.drop_last();
        let last = addrs.last();
        lemma_distinct(shorter);
        let earlier = distinct(shorter);
        assert(addrs =~= shorter.push(last));
        assert forall|x: SocketAddr| addrs.contains(x) <==> (shorter.contains(x) || x == last) by {
            assert(addrs[addrs.len() - 1] == last);
            if shorter.contains(x) {
                let j = choose|j: int| 0 <= j < shorter.len() && shorter[j] == x;
                assert(addrs[j] == x);
            }
        }
        assert forall|x: SocketAddr| earlier.contains(x) <==> shorter.contains(x) by {
            assert(earlier.to_set().contains(x) <==> shorter.to_set().contains(x));
        }
        if !earlier.contains(last) {
            let longer = earlier.push(last);
            assert forall|x: SocketAddr| longer.contains(x) <==> (earlier.contains(x) || x
                == last) by {
                assert(longer[earlier.len() as int] == last);
                if earlier.contains(x) {
                    let j = choose|j: int| 0 <= j < earlier.len() && earlier[j] == x;
                    assert(longer[j] == x);
                }
            }
        }
        assert(distinct(addrs).to_set() =~= addrs.to_set());
    }
}

/// Whether `addr` is among the addresses.
fn holds_addr(addrs: &Vec<SocketAddr>, addr: SocketAddr) -> (found: bool)
    ensures
        found == addrs@.contains(addr),
{
    let mut i: usize = 0;
    while i < addrs.len()
        invariant
            i <= addrs@.len(),
            forall|j: int| 0 <= j < i ==> addrs@[j] != addr,
        decreases addrs@.len() - i,
    {
        if addrs[i] == addr {
            return true;
        }
        i += 1;
    }
    false
}

/// Drops repeated addresses, keeping each where it first stands.
pub fn dedup_candidates(addrs: &[SocketAddr]) -> (unique: Vec<SocketAddr>)
    ensures
        unique@ == distinct(addrs@),
{
    let mut unique: Vec<SocketAddr> = Vec::new();
    let mut i: usize = 0;
    while i < addrs.len()
        invariant
            i <= addrs@.len(),
            unique@ == distinct(addrs@.take(i as int)),
        decreases addrs@.len() - i,
    {
        if !holds_addr(&unique, addrs[i]) {
            unique.push(addrs[i]);
        }
        i += 1;
        assert(addrs@.take(i as int).drop_last() =~= addrs@.take(i - 1));
    }
    assert(addrs@.take(i as int) =~= addrs@);
    unique
}

/// Calls `rand`'s `SliceRandom::shuffle` with the thread's generator. Whatever order comes out, the
/// addresses are the same; which order it is rests on chance. It panics only if the machine cannot
/// seed the generator.
#[verifier::external_body]
fn shuffle_candidates(candidates: &mut Vec<SocketAddr>)
    ensures
        final(candidates)@.to_multiset() == old(candidates)@.to_multiset(),
{
    candidates.shuffle(&mut rand::thread_rng());
}

/// The dial order once the discovered candidates have been shuffled: the explicit endpoint alone if
/// there is one, otherwise the candidates IPv6 first.
pub fn dial_order(config: &ChiaPeerConfig, shuffled: &[SocketAddr]) -> (order: Vec<SocketAddr>)
    ensures
        order@ == (match config.endpoint {
            Some(endpoint) => seq![endpoint],
            None => ordered(shuffled@),
        }),
{
    match config.endpoint {
        Some(endpoint) => {
            let alone: [SocketAddr; 1] = [endpoint];
            let order = order_candidates(&alone);
            proof {
                assert(alone@ =~= seq![endpoint]);
                crate::ordering::law_one_rank_is_left_alone(alone@, endpoint.rank());
            }
            order
        },
        None => order_candidates(shuffled),
    }
}

/// `order` is a way to dial the discovered candidates: some shuffle of them, without repetitions,
/// put IPv6 first.
pub open spec fn is_dial_order(discovered: Seq<SocketAddr>, order: Seq<SocketAddr>) -> bool {
    exists|shuffled: Seq<SocketAddr>| #[trigger]
        ordered(shuffled) == order && shuffled.to_multiset() == distinct(discovered).to_multiset()
}

/// Chooses the dial order: an explicit endpoint alone, otherwise the discovered set, without
/// repetitions, shuffled to spread load, then ordered IPv6 first.
pub fn candidate_order(config: &ChiaPeerConfig, discovered: Vec<SocketAddr>) -> (order: Vec<
    SocketAddr,
>)
    ensures
        match config.endpoint {
            Some(endpoint) => order@ == seq![endpoint],
            None => is_dial_order(discovered@, order@),
        },
{
    let mut candidates: Vec<SocketAddr> = Vec::new();
    if needs_discovery(config) {
        candidates = dedup_candidates(discovered.as_slice());
        shuffle_candidates(&mut candidates);
    }
    dial_order(config, candidates.as_slice())
}

/// However the shuffle falls, every discovered address is dialed, each once, and every IPv6 address
/// before every IPv4 address.
pub proof fn law_dial_order_covers_the_discovered_set(
    discovered: Seq<SocketAddr>,
    order: Seq<SocketAddr>,
)
    requires
        is_dial_order(discovered, order),
    ensures
        order.no_duplicates(),
        order.to_set() == discovered.to_set(),
        forall|i: int, j: int|
            0 <= i < j < order.len() ==> (#[trigger] order[i]).rank() <= (
            #[trigger] order[j]).rank(),
{
    let shuffled = choose|shuffled: Seq<SocketAddr>| #[trigger]
        ordered(shuffled) == order && shuffled.to_multiset() == distinct(discovered).to_multiset();
    lemma_distinct(discovered);
    law_ordering_preserves_every_candidate(shuffled);
    let unique = distinct(discovered);
    assert(order.to_multiset() == unique.to_multiset());
    lemma_multiset_no_duplicates(unique, order);
    assert(order.to_set() =~= discovered.to_set()) by {
        broadcast use group_to_multiset_ensures;

        assert forall|x: SocketAddr| order.contains(x) <==> discovered.contains(x) by {
            assert(order.contains(x) <==> order.to_multiset().count(x) > 0);
            assert(unique.contains(x) <==> unique.to_multiset().count(x) > 0);
            assert(unique.to_set().contains(x) <==> discovered.to_set().contains(x));
        }
    }
    assert forall|i: int, j: int| 0 <= i < j < order.len() implies (#[trigger] order[i]).rank() <= (
    #[trigger] order[j]).rank() by {
        law_ordering_is_ipv6_first(shuffled, i, j);
    }
}

/// A rearrangement of a list without repetitions has none either.
proof fn lemma_multiset_no_duplicates(a: Seq<SocketAddr>, b: Seq<SocketAddr>)
    requires
        a.no_duplicates(),
        a.to_multiset() == b.to_multiset(),
    ensures
        b.no_duplicates(),
{
    broadcast use group_to_multiset_ensures;

    a.unique_seq_to_set();
    assert(a.len() == a.to_multiset().len());
    assert(b.len() == b.to_multiset().len());
    assert(b.to_set() =~= a.to_set()) by {
        assert forall|x: SocketAddr| a.contains(x) <==> b.contains(x) by {
            assert(a.contains(x) <==> a.to_multiset().count(x) > 0);
            assert(b.contains(x) <==> b.to_multiset().count(x) > 0);
        }
    }
    b.lemma_no_dup_set_cardinality();
}

/// How many introducer results are resolved per batch.
pub const DISCOVERY_BATCH: usize = 10;

/// Whether candidates have to be discovered: only if no endpoint is set.
pub fn needs_discovery(config: &ChiaPeerConfig) -> (needed: bool)
    ensures
        needed == (config.endpoint is None),
{
    config.endpoint.is_none()
}

/// What has happened since the last action of a [`Dial`]. `P` is a connection.
pub enum DialEvent<P> {
    /// Nothing was attempted yet.
    Started,
    /// The attempt completed the handshake.
    Connected(P),
    /// The attempt failed.
    Failed,
    /// The attempt did not complete within the connect timeout.
    TimedOut,
}

/// What to do next in a [`Dial`]. `P` is a connection.
pub enum DialAction<P> {
    /// Attempt to connect to this address, within the connect timeout.
    Attempt(SocketAddr),
    /// Hand this connection back.
    Use(P),
    /// Report this error.
    GiveUp(ChiaPeerError),
}

/// The state of one dialing run: the candidates that have not been attempted.
pub struct Dial {
    candidates: Vec<SocketAddr>,
    attempted: usize,
}

impl View for Dial {
    type V = Seq<SocketAddr>;

    closed spec fn view(&self) -> Seq<SocketAddr> {
        self.candidates@.skip(self.attempted as int)
    }
}

impl Dial {
    /// No more was attempted than there is.
    pub closed spec fn wf(&self) -> bool {
        self.attempted <= self.candidates@.len()
    }

    /// A run over `candidates`, with nothing attempted yet.
    pub fn new(candidates: Vec<SocketAddr>) -> (dial: Self)
        ensures
            dial.wf(),
            dial@ == candidates@,
    {
        assert(candidates@.skip(0) =~= candidates@);
        Dial { candidates, attempted: 0 }
    }

    /// Decides what to do after `event`: a connection is used; otherwise the next candidate is
    /// attempted, and without one discovery has failed.
    pub fn step<P>(&mut self, event: DialEvent<P>) -> (action: DialAction<P>)
        requires
            old(self).wf(),
        ensures
            final(self).wf(),
            match event {
                DialEvent::Connected(peer) => action == DialAction::Use(peer) && final(self)@
                    == old(self)@,
                _ => if old(self)@.len() == 0 {
                    action == DialAction::<P>::GiveUp(ChiaPeerError::PeerDiscoveryFailed)
                        && final(self)@ == old(self)@
                } else {
                    action == DialAction::<P>::Attempt(old(self)@[0]) && final(self)@ == old(
                        self,
                    )@.skip(1)
                },
            },
    {
        match event {
            DialEvent::Connected(peer) => DialAction::Use(peer),
            _ => if self.attempted == self.candidates.len() {
                DialAction::GiveUp(ChiaPeerError::PeerDiscoveryFailed)
            } else {
                let addr: SocketAddr = self.candidates[self.attempted];
                self.attempted += 1;
                DialAction::Attempt(addr)
            },
        }
    }
}

/// What is left to attempt after `failures` attempts in a row have failed.
pub open spec fn left_after(candidates: Seq<SocketAddr>, failures: nat) -> Seq<SocketAddr>
    decreases failures,
{
    if failures == 0 {
        candidates
    } else {
        left_after(candidates, (failures - 1) as nat).skip(1)
    }
}

/// Dialing attempts every candidate in order and skips none: after `failures` failed attempts the
/// next one is the candidate at that place, and only when all have failed is none left.
pub proof fn law_dialing_attempts_every_candidate(candidates: Seq<SocketAddr>, failures: nat)
    requires
        failures <= candidates.len(),
    ensures
        left_after(candidates, failures) == candidates.skip(failures as int),
        failures < candidates.len() ==> left_after(candidates, failures)[0]
            == candidates[failures as int],
        left_after(candidates, failures).len() == 0 <==> failures == candidates.len(),
    decreases failures,
{
    if failures == 0 {
        assert(candidates.skip(0) =~= candidates);
    } else {
        law_dialing_attempts_every_candidate(candidates, (failures - 1) as nat);
        assert(candidates.skip(failures - 1).skip(1) =~= candidates.skip(failures as int));
    }
}

/// Dropping repetitions leaves every address once, in the order of their first occurrences.
pub proof fn law_first_occurrences_are_kept(addrs: Seq<SocketAddr>)
    ensures
        distinct(addrs).no_duplicates(),
        forall|addr: SocketAddr| distinct(addrs).contains(addr) <==> addrs.contains(addr),
{
    lemma_distinct(addrs);
    assert forall|addr: SocketAddr| distinct(addrs).contains(addr) <==> addrs.contains(addr) by {
        assert(distinct(addrs).to_set().contains(addr) <==> addrs.to_set().contains(addr));
    }
}

/// Of two addresses that are left when repetitions are dropped, the one that first occurred earlier
/// comes first.
pub proof fn law_first_occurrences_keep_their_order(
    addrs: Seq<SocketAddr>,
    i: int,
    j: int,
    p: int,
    q: int,
)
    requires
        0 <= i < j < distinct(addrs).len(),
        0 <= p < addrs.len(),
        0 <= q < addrs.len(),
        addrs[p] == distinct(addrs)[i],
        addrs[q] == distinct(addrs)[j],
        forall|k: int| 0 <= k < p ==> #[trigger] addrs[k] != addrs[p],
        forall|k: int| 0 <= k < q ==> #[trigger] addrs[k] != addrs[q],
    ensures
        p < q,
    decreases addrs.len(),
{
    let shorter = addrs.drop_last();
    let last = addrs.len() - 1;
    lemma_distinct(shorter);
    let earlier = distinct(shorter);
    assert(addrs.last() == addrs[last]);
    assert(forall|x: SocketAddr| earlier.to_set().contains(x) <==> shorter.to_set().contains(x));
    assert(earlier[i] == distinct(addrs)[i]);
    assert(earlier.contains(earlier[i]));
    assert(shorter.to_set().contains(earlier[i]));
    let a = choose|a: int| 0 <= a < shorter.len() && shorter[a] == earlier[i];
    assert(addrs[a] == addrs[p]);
    assert(p <= a);
    if j < earlier.len() {
        assert(earlier[j] == distinct(addrs)[j]);
        assert(earlier.contains(earlier[j]));
        assert(shorter.to_set().contains(earlier[j]));
        let b = choose|b: int| 0 <= b < shorter.len() && shorter[b] == earlier[j];
        assert(addrs[b] == addrs[q]);
        assert(q <= b);
        assert(forall|k: int| 0 <= k < last ==> #[trigger] shorter[k] == addrs[k]);
        law_first_occurrences_keep_their_order(shorter, i, j, p, q);
    } else {
        assert(!earlier.contains(addrs[last]));
        assert(distinct(addrs)[j] == addrs[last]);
        if q < last {
            assert(shorter[q] == addrs[q]);
            assert(shorter.to_set().contains(shorter[q]));
            assert(earlier.to_set().contains(addrs[last]));
        }
    }
}

/// However the shuffle falls, an address is dialed exactly if it was discovered, and once; and every
/// IPv6 address is dialed before every IPv4 address, `::1` before the other IPv6 addresses, and
/// `127.0.0.0/8` before the other IPv4 addresses.
pub proof fn law_who_is_dialed_and_when(
    discovered: Seq<SocketAddr>,
    order: Seq<SocketAddr>,
    addr: SocketAddr,
)
    requires
        is_dial_order(discovered, order),
    ensures
        order.contains(addr) <==> discovered.contains(addr),
        order.no_duplicates(),
        forall|i: int, j: int|
            0 <= i < j < order.len() && (#[trigger] order[j]) is V6 ==> (#[trigger] order[i]) is V6,
        forall|i: int, j: int|
            0 <= i < j < order.len() && (#[trigger] order[j]) is V6 && order[j]->V6_0.segments@
                == seq![0u16, 0, 0, 0, 0, 0, 0, 1] ==> (#[trigger] order[i])->V6_0.segments@
                == seq![0u16, 0, 0, 0, 0, 0, 0, 1],
        forall|i: int, j: int|
            0 <= i < j < order.len() && (#[trigger] order[i]) is V4 && (#[trigger] order[j]) is V4
                && order[j]->V4_0.octets@[0] == 127 ==> order[i]->V4_0.octets@[0] == 127,
{
    law_dial_order_covers_the_discovered_set(discovered, order);
    assert(order.to_set().contains(addr) <==> discovered.to_set().contains(addr));
    let shuffled = choose|shuffled: Seq<SocketAddr>| #[trigger]
        ordered(shuffled) == order && shuffled.to_multiset() == distinct(discovered).to_multiset();
    assert forall|i: int, j: int| 0 <= i < j < order.len() implies {
        &&& (#[trigger] order[j]) is V6 ==> (#[trigger] order[i]) is V6
        &&& order[j] is V6 && order[j]->V6_0.segments@ == seq![0u16, 0, 0, 0, 0, 0, 0, 1]
            ==> order[i]->V6_0.segments@ == seq![0u16, 0, 0, 0, 0, 0, 0, 1]
        &&& order[i] is V4 && order[j] is V4 && order[j]->V4_0.octets@[0] == 127
            ==> order[i]->V4_0.octets@[0] == 127
    } by {
        law_what_comes_first(shuffled, i, j);
    }
}

/// Introducers are asked ten at a time.
pub proof fn law_introducers_are_asked_ten_at_a_time()
    ensures
        DISCOVERY_BATCH == 10,
{
}

} // verus!
