//! IPv6-first ordering of peer candidates.
//!
//! Every IPv6 candidate is dialed before any IPv4 candidate, and within each family the machine's
//! own address comes first. The ordering is a stable partition: it neither drops nor repeats a
//! candidate, so IPv4 stays a full fallback, and a caller may shuffle the input to spread load.

use vstd::prelude::*;
use vstd::seq_lib::group_to_multiset_ensures;

use crate::address::SocketAddr;

verus! {

impl SocketAddr {
    /// When the address is tried: IPv6 loopback, other IPv6, IPv4 loopback, other IPv4.
    pub open spec fn rank(self) -> int {
        match self {
            SocketAddr::V6(_) => if self.loopback() {
                0
            } else {
                1
            },
            SocketAddr::V4(_) => if self.loopback() {
                2
            } else {
                3
            },
        }
    }
}

/// The candidates of one rank, in their given order.
pub open spec fn with_rank(candidates: Seq<SocketAddr>, rank: int) -> Seq<SocketAddr> {
    candidates.filter(|addr: SocketAddr| addr.rank() == rank)
}

/// The candidates rank by rank, in their given order within each rank.
pub open spec fn ordered(candidates: Seq<SocketAddr>) -> Seq<SocketAddr> {
    with_rank(candidates, 0) + with_rank(candidates, 1) + with_rank(candidates, 2) + with_rank(
        candidates,
        3,
    )
}

/// Returns `candidates` IPv6 first and IPv4 last, with loopback addresses first within each family.
/// The relative order within each of these four groups is kept.
pub fn order_candidates(candidates: &[SocketAddr]) -> (result: Vec<SocketAddr>)
    ensures
        result@ == ordered(candidates@),
{
    let mut v6_loopback: Vec<SocketAddr> = Vec::new();
    let mut v6_rest: Vec<SocketAddr> = Vec::new();
    let mut v4_loopback: Vec<SocketAddr> = Vec::new();
    let mut v4_rest: Vec<SocketAddr> = Vec::new();
    let mut i: usize = 0;
    while i < candidates.len()
        invariant
            i <= candidates@.len(),
            v6_loopback@ == with_rank(candidates@.take(i as int), 0),
            v6_rest@ == with_rank(candidates@.take(i as int), 1),
            v4_loopback@ == with_rank(candidates@.take(i as int), 2),
            v4_rest@ == with_rank(candidates@.take(i as int), 3),
        decreases candidates@.len() - i,
    {
        let addr: SocketAddr = candidates[i];
        proof {
            assert(candidates@.take(i + 1) =~= candidates@.take(i as int).push(addr));
            lemma_rank_push(candidates@.take(i as int), addr);
        }
        if addr.is_ipv6() {
            if addr.is_loopback() {
                v6_loopback.push(addr);
            } else {
                v6_rest.push(addr);
            }
        } else {
            if addr.is_loopback() {
                v4_loopback.push(addr);
            } else {
                v4_rest.push(addr);
            }
        }
        i += 1;
    }
    assert(candidates@.take(i as int) =~= candidates@);
    let mut result: Vec<SocketAddr> = v6_loopback;
    result.append(&mut v6_rest);
    result.append(&mut v4_loopback);
    result.append(&mut v4_rest);
    result
}

/// A candidate at the end joins the candidates of its own rank and no others.
proof fn lemma_rank_push(candidates: Seq<SocketAddr>, addr: SocketAddr)
    ensures
        forall|rank: int| #[trigger]
            with_rank(candidates.push(addr), rank) == if addr.rank() == rank {
                with_rank(candidates, rank).push(addr)
            } else {
                with_rank(candidates, rank)
            },
{
    assert forall|rank: int| #[trigger]
        with_rank(candidates.push(addr), rank) == if addr.rank() == rank {
            with_rank(candidates, rank).push(addr)
        } else {
            with_rank(candidates, rank)
        } by {
        candidates.lemma_filter_push(addr, |addr: SocketAddr| addr.rank() == rank);
    }
}

/// Every candidate of one rank has that rank.
proof fn lemma_rank_of(candidates: Seq<SocketAddr>, rank: int, i: int)
    requires
        0 <= i < with_rank(candidates, rank).len(),
    ensures
        with_rank(candidates, rank)[i].rank() == rank,
{
    candidates.lemma_filter_pred(|addr: SocketAddr| addr.rank() == rank, i);
}

/// Ordering neither drops nor repeats a candidate.
pub proof fn law_ordering_preserves_every_candidate(candidates: Seq<SocketAddr>)
    ensures
        ordered(candidates).to_multiset() == candidates.to_multiset(),
        ordered(candidates).len() == candidates.len(),
    decreases candidates.len(),
{
    broadcast use group_to_multiset_ensures;

    if candidates.len() == 0 {
        assert(ordered(candidates) =~= candidates);
    } else {
        let shorter = candidates.drop_last();
        let last = candidates.last();
        assert(candidates =~= shorter.push(last));
        law_ordering_preserves_every_candidate(shorter);
        lemma_rank_push(shorter, last);
        lemma_ordered_multiset(candidates);
        lemma_ordered_multiset(shorter);
        assert(ordered(candidates).to_multiset() =~= ordered(shorter).to_multiset().insert(last));
        assert(candidates.to_multiset() =~= shorter.to_multiset().insert(last));
    }
}

/// The multiset of ordered candidates is the sum over the four ranks.
proof fn lemma_ordered_multiset(candidates: Seq<SocketAddr>)
    ensures
        ordered(candidates).to_multiset() == with_rank(candidates, 0).to_multiset().add(
            with_rank(candidates, 1).to_multiset(),
        ).add(with_rank(candidates, 2).to_multiset()).add(with_rank(candidates, 3).to_multiset()),
{
    let a = with_rank(candidates, 0);
    let b = with_rank(candidates, 1);
    let c = with_rank(candidates, 2);
    let d = with_rank(candidates, 3);
    vstd::seq_lib::lemma_multiset_commutative(a, b);
    vstd::seq_lib::lemma_multiset_commutative(a + b, c);
    vstd::seq_lib::lemma_multiset_commutative(a + b + c, d);
}

/// Candidates come out in rank order: every IPv6 address before every IPv4 address, and the
/// machine's own address before the others of its family.
pub proof fn law_ordering_is_ipv6_first(candidates: Seq<SocketAddr>, i: int, j: int)
    requires
        0 <= i < j < ordered(candidates).len(),
    ensures
        ordered(candidates)[i].rank() <= ordered(candidates)[j].rank(),
        ordered(candidates)[j] is V6 ==> ordered(candidates)[i] is V6,
        (ordered(candidates)[i] is V6 == ordered(candidates)[j] is V6) && ordered(
            candidates,
        )[j].loopback() ==> ordered(candidates)[i].loopback(),
{
    lemma_rank_at(candidates, i);
    lemma_rank_at(candidates, j);
}

/// The rank of an ordered candidate is that of the group it stands in.
proof fn lemma_rank_at(candidates: Seq<SocketAddr>, i: int)
    requires
        0 <= i < ordered(candidates).len(),
    ensures
        ({
            let n0 = with_rank(candidates, 0).len();
            let n1 = n0 + with_rank(candidates, 1).len();
            let n2 = n1 + with_rank(candidates, 2).len();
            ordered(candidates)[i].rank() == if i < n0 {
                0int
            } else if i < n1 {
                1
            } else if i < n2 {
                2
            } else {
                3
            }
        }),
{
    let n0 = with_rank(candidates, 0).len();
    let n1 = n0 + with_rank(candidates, 1).len();
    let n2 = n1 + with_rank(candidates, 2).len();
    if i < n0 {
        lemma_rank_of(candidates, 0, i);
    } else if i < n1 {
        lemma_rank_of(candidates, 1, i - n0);
    } else if i < n2 {
        lemma_rank_of(candidates, 2, i - n1);
    } else {
        lemma_rank_of(candidates, 3, i - n2);
    }
}

/// Ordering is stable: the candidates of one rank come out in their given order.
pub proof fn law_ordering_is_stable(candidates: Seq<SocketAddr>, rank: int)
    ensures
        with_rank(ordered(candidates), rank) == with_rank(candidates, rank),
{
    let p = |addr: SocketAddr| addr.rank() == rank;
    let a = with_rank(candidates, 0);
    let b = with_rank(candidates, 1);
    let c = with_rank(candidates, 2);
    let d = with_rank(candidates, 3);
    Seq::filter_distributes_over_add(a, b, p);
    Seq::filter_distributes_over_add(a + b, c, p);
    Seq::filter_distributes_over_add(a + b + c, d, p);
    lemma_rank_of_rank(candidates, 0, rank);
    lemma_rank_of_rank(candidates, 1, rank);
    lemma_rank_of_rank(candidates, 2, rank);
    lemma_rank_of_rank(candidates, 3, rank);
    assert(with_rank(candidates, rank) =~= with_rank(a, rank) + with_rank(b, rank) + with_rank(
        c,
        rank,
    ) + with_rank(d, rank)) by {
        if !(0 <= rank <= 3) {
            candidates.lemma_all_neg_filter_empty(p);
        }
    }
}

/// Picking a rank out of the candidates of one rank gives all of them or none.
proof fn lemma_rank_of_rank(candidates: Seq<SocketAddr>, rank: int, picked: int)
    ensures
        with_rank(with_rank(candidates, rank), picked) == if rank == picked {
            with_rank(candidates, rank)
        } else {
            Seq::<SocketAddr>::empty()
        },
    decreases candidates.len(),
{
    if candidates.len() == 0 {
        assert(with_rank(candidates, rank) =~= Seq::<SocketAddr>::empty());
        assert(with_rank(with_rank(candidates, rank), picked) =~= Seq::<SocketAddr>::empty());
    } else {
        let shorter = candidates.drop_last();
        let last = candidates.last();
        assert(candidates =~= shorter.push(last));
        lemma_rank_of_rank(shorter, rank, picked);
        lemma_rank_push(shorter, last);
        lemma_rank_push(with_rank(shorter, rank), last);
    }
}

/// Ordering what is already ordered changes nothing.
pub proof fn law_ordering_is_idempotent(candidates: Seq<SocketAddr>)
    ensures
        ordered(ordered(candidates)) == ordered(candidates),
{
    law_ordering_is_stable(candidates, 0);
    law_ordering_is_stable(candidates, 1);
    law_ordering_is_stable(candidates, 2);
    law_ordering_is_stable(candidates, 3);
}

/// Candidates that all have one rank, such as public IPv4 addresses alone, come out as they went
/// in.
pub proof fn law_one_rank_is_left_alone(candidates: Seq<SocketAddr>, rank: int)
    requires
        forall|i: int| 0 <= i < candidates.len() ==> (#[trigger] candidates[i]).rank() == rank,
    ensures
        ordered(candidates) == candidates,
{
    lemma_all_rank(candidates, rank);
    lemma_only_rank(candidates, rank);
    if candidates.len() > 0 {
        assert(candidates[0].rank() == rank);
    }
    let none = Seq::<SocketAddr>::empty();
    assert(none + candidates =~= candidates);
    assert(candidates + none =~= candidates);
    assert(none + none =~= none);
    if candidates.len() == 0 {
        assert(candidates =~= none);
    }
}

/// Where all candidates have one rank, that rank is all of them.
proof fn lemma_all_rank(candidates: Seq<SocketAddr>, rank: int)
    requires
        forall|i: int| 0 <= i < candidates.len() ==> (#[trigger] candidates[i]).rank() == rank,
    ensures
        with_rank(candidates, rank) == candidates,
    decreases candidates.len(),
{
    if candidates.len() == 0 {
        assert(with_rank(candidates, rank) =~= candidates);
    } else {
        let shorter = candidates.drop_last();
        let last = candidates.last();
        assert(candidates =~= shorter.push(last));
        assert(last == candidates[candidates.len() - 1]);
        lemma_all_rank(shorter, rank);
        lemma_rank_push(shorter, last);
    }
}

/// Where all candidates have one rank, the other ranks are empty.
proof fn lemma_only_rank(candidates: Seq<SocketAddr>, rank: int)
    requires
        forall|i: int| 0 <= i < candidates.len() ==> (#[trigger] candidates[i]).rank() == rank,
    ensures
        forall|other: int|
            other != rank ==> #[trigger] with_rank(candidates, other) == Seq::<SocketAddr>::empty(),
{
    assert forall|other: int| other != rank implies #[trigger] with_rank(candidates, other)
        == Seq::<SocketAddr>::empty() by {
        candidates.lemma_all_neg_filter_empty(|addr: SocketAddr| addr.rank() == other);
        assert(with_rank(candidates, other) =~= Seq::<SocketAddr>::empty());
    }
}

/// Ordering sorts by family and then by loopback. Every IPv6 address comes before every IPv4
/// address, `::1` before every other IPv6 address, and `127.0.0.0/8` before every other IPv4
/// address.
pub proof fn law_what_comes_first(candidates: Seq<SocketAddr>, i: int, j: int)
    requires
        0 <= i < j < ordered(candidates).len(),
    ensures
        ordered(candidates)[j] is V6 ==> ordered(candidates)[i] is V6,
        ordered(candidates)[j] is V6 && ordered(candidates)[j]->V6_0.segments@ == seq![
            0u16,
            0,
            0,
            0,
            0,
            0,
            0,
            1,
        ] ==> ordered(candidates)[i]->V6_0.segments@ == seq![0u16, 0, 0, 0, 0, 0, 0, 1],
        ordered(candidates)[i] is V4 && ordered(candidates)[j] is V4 && ordered(
            candidates,
        )[j]->V4_0.octets@[0] == 127 ==> ordered(candidates)[i]->V4_0.octets@[0] == 127,
{
    law_ordering_is_ipv6_first(candidates, i, j);
}

/// Ordering keeps the given order within each of the four groups: `::1`, other IPv6 addresses,
/// `127.0.0.0/8`, other IPv4 addresses.
pub proof fn law_each_group_keeps_its_order(candidates: Seq<SocketAddr>)
    ensures
        ({
            let one = seq![0u16, 0, 0, 0, 0, 0, 0, 1];
            let v6_own = |addr: SocketAddr| addr is V6 && addr->V6_0.segments@ == one;
            let v6_other = |addr: SocketAddr| addr is V6 && addr->V6_0.segments@ != one;
            let v4_own = |addr: SocketAddr| addr is V4 && addr->V4_0.octets@[0] == 127;
            let v4_other = |addr: SocketAddr| addr is V4 && addr->V4_0.octets@[0] != 127;
            &&& ordered(candidates).filter(v6_own) == candidates.filter(v6_own)
            &&& ordered(candidates).filter(v6_other) == candidates.filter(v6_other)
            &&& ordered(candidates).filter(v4_own) == candidates.filter(v4_own)
            &&& ordered(candidates).filter(v4_other) == candidates.filter(v4_other)
        }),
{
    let one = seq![0u16, 0, 0, 0, 0, 0, 0, 1];
    let v6_own = |addr: SocketAddr| addr is V6 && addr->V6_0.segments@ == one;
    let v6_other = |addr: SocketAddr| addr is V6 && addr->V6_0.segments@ != one;
    let v4_own = |addr: SocketAddr| addr is V4 && addr->V4_0.octets@[0] == 127;
    let v4_other = |addr: SocketAddr| addr is V4 && addr->V4_0.octets@[0] != 127;
    lemma_group_keeps_its_order(candidates, 0, v6_own);
    lemma_group_keeps_its_order(candidates, 1, v6_other);
    lemma_group_keeps_its_order(candidates, 2, v4_own);
    lemma_group_keeps_its_order(candidates, 3, v4_other);
}

/// Ordering keeps the given order within a group that is all of one rank.
proof fn lemma_group_keeps_its_order(
    candidates: Seq<SocketAddr>,
    rank: int,
    group: spec_fn(SocketAddr) -> bool,
)
    requires
        forall|addr: SocketAddr| #[trigger] group(addr) == (addr.rank() == rank),
    ensures
        ordered(candidates).filter(group) == candidates.filter(group),
{
    assert(group =~= |addr: SocketAddr| addr.rank() == rank);
    law_ordering_is_stable(candidates, rank);
}

} // verus!
