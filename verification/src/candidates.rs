//! Candidate gathering: from resolved addresses and ranked protocol stacks to
//! the ordered list of connection attempts.
//!
//! Stacks come in descending rank. Within one stack the remote addresses are
//! split by family and interleaved, IPv6 first, so that both families make
//! progress while the stack is being tried.

use vstd::prelude::*;
use crate::endpoint::SocketAddress;

verus! {

/// One connection attempt to make: a remote address, the local address to
/// bind if one is given, and the identifier of the protocol stack.
#[derive(Debug, Clone, Copy, PartialEq, Eq)]
pub struct Candidate {
    pub remote: SocketAddress,
    pub local: Option<SocketAddress>,
    pub protocol: &'static str,
}

/// The items of two sequences in turn, starting with the first sequence;
/// once a sequence runs out, what is left of the other follows in order.
pub open spec fn interleaved<T>(first: Seq<T>, second: Seq<T>) -> Seq<T>
    decreases first.len() + second.len(),
{
    if first.len() == 0 {
        second
    } else {
        seq![first[0]] + interleaved(second, first.drop_first())
    }
}

/// Interleaves two vectors with `itertools::interleave`, which alternates
/// between the two, starting with the first, until both have run out.
#[verifier::external_body]
fn interleave<T>(first: Vec<T>, second: Vec<T>) -> (out: Vec<T>)
    ensures
        out@ == interleaved(first@, second@),
{
    itertools::interleave(first, second).collect()
}

/// The addresses of a sequence without repetitions, each at the place of its
/// first occurrence.
pub open spec fn distinct(addresses: Seq<SocketAddress>) -> Seq<SocketAddress>
    decreases addresses.len(),
{
    if addresses.len() == 0 {
        Seq::empty()
    } else {
        let before = distinct(addresses.drop_last());
        if before.contains(addresses.last()) {
            before
        } else {
            before.push(addresses.last())
        }
    }
}

/// The candidates of one stack and one address family, in the order of the
/// remote addresses.
pub open spec fn family_candidates(
    remotes: Seq<SocketAddress>,
    local: Option<SocketAddress>,
    protocol: &'static str,
    ipv6: bool,
) -> Seq<Candidate>
    decreases remotes.len(),
{
    if remotes.len() == 0 {
        Seq::empty()
    } else {
        let before = family_candidates(remotes.drop_last(), local, protocol, ipv6);
        if remotes.last().ipv6() == ipv6 {
            before.push(Candidate { remote: remotes.last(), local, protocol })
        } else {
            before
        }
    }
}

/// The candidates of one stack: its IPv6 candidates interleaved with its
/// IPv4 candidates, IPv6 taking the first slot.
pub open spec fn protocol_candidates(
    remotes: Seq<SocketAddress>,
    local: Option<SocketAddress>,
    protocol: &'static str,
) -> Seq<Candidate> {
    interleaved(
        family_candidates(remotes, local, protocol, true),
        family_candidates(remotes, local, protocol, false),
    )
}

/// A ranked stack put into a sequence that is in descending rank: behind
/// every stack of at least its rank, before the others.
pub open spec fn inserted(sorted: Seq<(&'static str, u8)>, entry: (&'static str, u8)) -> Seq<
    (&'static str, u8),
>
    decreases sorted.len(),
{
    if sorted.len() == 0 {
        seq![entry]
    } else if sorted[0].1 >= entry.1 {
        seq![sorted[0]] + inserted(sorted.drop_first(), entry)
    } else {
        seq![entry] + sorted
    }
}

/// Ranked stacks in descending rank; stacks of equal rank keep their order.
pub open spec fn by_descending_rank(ranks: Seq<(&'static str, u8)>) -> Seq<(&'static str, u8)>
    decreases ranks.len(),
{
    if ranks.len() == 0 {
        Seq::empty()
    } else {
        inserted(by_descending_rank(ranks.drop_last()), ranks.last())
    }
}

/// The candidates of the stacks of `order`, stack after stack.
pub open spec fn candidates_for(
    remotes: Seq<SocketAddress>,
    local: Option<SocketAddress>,
    order: Seq<(&'static str, u8)>,
) -> Seq<Candidate>
    decreases order.len(),
{
    if order.len() == 0 {
        Seq::empty()
    } else {
        candidates_for(remotes, local, order.drop_last()) + protocol_candidates(
            remotes,
            local,
            order.last().0,
        )
    }
}

/// The candidate list for resolved remote addresses, an optional local
/// address and ranked stacks: repeated addresses dropped, stacks in
/// descending rank, families interleaved within each stack.
pub open spec fn gathered(
    remotes: Seq<SocketAddress>,
    local: Option<SocketAddress>,
    ranks: Seq<(&'static str, u8)>,
) -> Seq<Candidate> {
    candidates_for(distinct(remotes), local, by_descending_rank(ranks))
}

/// Whether an address occurs in a vector.
pub fn contains_address(addresses: &Vec<SocketAddress>, address: SocketAddress) -> (found: bool)
    ensures
        found == addresses@.contains(address),
{
    let mut i: usize = 0;
    while i < addresses.len()
        invariant
            i <= addresses@.len(),
            forall|k: int| 0 <= k < i ==> addresses@[k] != address,
        decreases addresses@.len() - i,
    {
        if addresses[i] == address {
            return true;
        }
        i += 1;
    }
    false
}

/// Drops repeated addresses, keeping each at the place of its first occurrence.
pub fn distinct_addresses(addresses: &Vec<SocketAddress>) -> (out: Vec<SocketAddress>)
    ensures
        out@ == distinct(addresses@),
{
    let mut out: Vec<SocketAddress> = Vec::new();
    let mut i: usize = 0;
    while i < addresses.len()
        invariant
            i <= addresses@.len(),
            out@ == distinct(addresses@.take(i as int)),
        decreases addresses@.len() - i,
    {
        let address = addresses[i];
        proof {
            assert(addresses@.take(i + 1).drop_last() =~= addresses@.take(i as int));
        }
        if !contains_address(&out, address) {
            out.push(address);
        }
        i += 1;
    }
    proof {
        assert(addresses@.take(i as int) =~= addresses@);
    }
    out
}

/// The candidates of one stack and one address family.
fn candidates_of_family(
    remotes: &Vec<SocketAddress>,
    local: Option<SocketAddress>,
    protocol: &'static str,
    ipv6: bool,
) -> (out: Vec<Candidate>)
    ensures
        out@ == family_candidates(remotes@, local, protocol, ipv6),
{
    let mut out: Vec<Candidate> = Vec::new();
    let mut i: usize = 0;
    while i < remotes.len()
        invariant
            i <= remotes@.len(),
            out@ == family_candidates(remotes@.take(i as int), local, protocol, ipv6),
        decreases remotes@.len() - i,
    {
        let remote = remotes[i];
        proof {
            assert(remotes@.take(i + 1).drop_last() =~= remotes@.take(i as int));
        }
        if remote.is_ipv6() == ipv6 {
            out.push(Candidate { remote, local, protocol });
        }
        i += 1;
    }
    proof {
        assert(remotes@.take(i as int) =~= remotes@);
    }
    out
}

/// Inserting behind the leading stacks of at least the entry's rank is
/// inserting at the number of those stacks.
proof fn lemma_inserted_at(sorted: Seq<(&'static str, u8)>, entry: (&'static str, u8), at: int)
    requires
        0 <= at <= sorted.len(),
        forall|k: int| 0 <= k < at ==> sorted[k].1 >= entry.1,
        at < sorted.len() ==> sorted[at].1 < entry.1,
    ensures
        inserted(sorted, entry) == sorted.insert(at, entry),
    decreases sorted.len(),
{
    if sorted.len() == 0 {
        assert(sorted.insert(at, entry) =~= seq![entry]);
    } else if at == 0 {
        assert(sorted.insert(0, entry) =~= seq![entry] + sorted);
    } else {
        lemma_inserted_at(sorted.drop_first(), entry, at - 1);
        assert(sorted.insert(at, entry) =~= seq![sorted[0]] + sorted.drop_first().insert(
            at - 1,
            entry,
        ));
    }
}

/// Orders ranked stacks by descending rank; stacks of equal rank keep their order.
pub fn sort_by_descending_rank(ranks: &Vec<(&'static str, u8)>) -> (out: Vec<(&'static str, u8)>)
    ensures
        out@ == by_descending_rank(ranks@),
{
    let mut out: Vec<(&'static str, u8)> = Vec::new();
    let mut i: usize = 0;
    while i < ranks.len()
        invariant
            i <= ranks@.len(),
            out@ == by_descending_rank(ranks@.take(i as int)),
            out@.len() == i,
        decreases ranks@.len() - i,
    {
        let entry = ranks[i];
        let mut at: usize = 0;
        while at < out.len() && out[at].1 >= entry.1
            invariant
                at <= out@.len(),
                forall|k: int| 0 <= k < at ==> out@[k].1 >= entry.1,
            decreases out@.len() - at,
        {
            at += 1;
        }
        proof {
            lemma_inserted_at(out@, entry, at as int);
            assert(ranks@.take(i + 1).drop_last() =~= ranks@.take(i as int));
        }
        out.insert(at, entry);
        i += 1;
    }
    proof {
        assert(ranks@.take(i as int) =~= ranks@);
    }
    out
}

/// Builds the candidate list from resolved remote addresses, an optional
/// local address and ranked stacks.
pub fn build_candidates(
    remotes: &Vec<SocketAddress>,
    local: Option<SocketAddress>,
    ranks: &Vec<(&'static str, u8)>,
) -> (out: Vec<Candidate>)
    ensures
        out@ == gathered(remotes@, local, ranks@),
{
    let addresses = distinct_addresses(remotes);
    let order = sort_by_descending_rank(ranks);
    let mut out: Vec<Candidate> = Vec::new();
    let mut i: usize = 0;
    while i < order.len()
        invariant
            i <= order@.len(),
            out@ == candidates_for(addresses@, local, order@.take(i as int)),
        decreases order@.len() - i,
    {
        let protocol = order[i].0;
        let ipv6_candidates = candidates_of_family(&addresses, local, protocol, true);
        let ipv4_candidates = candidates_of_family(&addresses, local, protocol, false);
        let mut block = interleave(ipv6_candidates, ipv4_candidates);
        proof {
            assert(order@.take(i + 1).drop_last() =~= order@.take(i as int));
        }
        out.append(&mut block);
        i += 1;
    }
    proof {
        assert(order@.take(i as int) =~= order@);
    }
    out
}

/// Where the items of two sequences stand once interleaved: item `n` of the
/// first sequence has `n` items of its own before it and as many of the
/// second as there are, up to `n`; item `n` of the second has one more of the
/// first before it.
pub proof fn lemma_interleaved_positions<T>(first: Seq<T>, second: Seq<T>)
    ensures
        interleaved(first, second).len() == first.len() + second.len(),
        forall|n: int|
            0 <= n < first.len() ==> interleaved(first, second)[if n <= second.len() {
                2 * n
            } else {
                n + second.len()
            }] == #[trigger] first[n],
        forall|n: int|
            0 <= n < second.len() ==> interleaved(first, second)[if n + 1 <= first.len() {
                2 * n + 1
            } else {
                n + first.len()
            }] == #[trigger] second[n],
    decreases first.len() + second.len(),
{
    if first.len() > 0 {
        let rest = first.drop_first();
        let tail = interleaved(second, rest);
        let all = interleaved(first, second);
        lemma_interleaved_positions(second, rest);
        assert(all == seq![first[0]] + tail);
        assert forall|n: int| 0 <= n < first.len() implies all[if n <= second.len() {
            2 * n
        } else {
            n + second.len()
        }] == #[trigger] first[n] by {
            if n > 0 {
                assert(rest[n - 1] == first[n]);
            }
        }
        assert forall|n: int| 0 <= n < second.len() implies all[if n + 1 <= first.len() {
            2 * n + 1
        } else {
            n + first.len()
        }] == #[trigger] second[n] by {
            let at = if n <= rest.len() {
                2 * n
            } else {
                n + rest.len()
            };
            assert(tail[at] == second[n]);
        }
    }
}

/// Every item of an interleaving comes from one of the two sequences.
pub proof fn lemma_interleaved_sources<T>(first: Seq<T>, second: Seq<T>, i: int)
    requires
        0 <= i < interleaved(first, second).len(),
    ensures
        first.contains(interleaved(first, second)[i]) || second.contains(
            interleaved(first, second)[i],
        ),
    decreases first.len() + second.len(),
{
    if first.len() > 0 {
        let rest = first.drop_first();
        let tail = interleaved(second, rest);
        let all = interleaved(first, second);
        assert(all == seq![first[0]] + tail);
        if i == 0 {
            assert(first[0] == all[0]);
        } else {
            lemma_interleaved_sources(second, rest, i - 1);
            assert(all[i] == tail[i - 1]);
            if rest.contains(tail[i - 1]) {
                let k = choose|k: int| 0 <= k < rest.len() && rest[k] == tail[i - 1];
                assert(first[k + 1] == tail[i - 1]);
            }
        }
    }
}

/// Happy-eyeballs interleaving: within the candidates of one stack, the
/// IPv6 candidate number `n`, counted from zero, stands at an index of at
/// most `2 * n`.
pub proof fn lemma_ipv6_candidate_index(
    remotes: Seq<SocketAddress>,
    local: Option<SocketAddress>,
    protocol: &'static str,
    n: int,
) -> (index: int)
    requires
        0 <= n < family_candidates(remotes, local, protocol, true).len(),
    ensures
        0 <= index <= 2 * n,
        index < protocol_candidates(remotes, local, protocol).len(),
        protocol_candidates(remotes, local, protocol)[index] == family_candidates(
            remotes,
            local,
            protocol,
            true,
        )[n],
{
    let ipv6 = family_candidates(remotes, local, protocol, true);
    let ipv4 = family_candidates(remotes, local, protocol, false);
    lemma_interleaved_positions(ipv6, ipv4);
    let index = if n <= ipv4.len() {
        2 * n
    } else {
        n + ipv4.len()
    };
    assert(interleaved(ipv6, ipv4)[index] == ipv6[n]);
    index
}

/// The candidates of a family carry the stack's identifier, the local
/// address and a remote address of that family.
pub proof fn lemma_family_candidates(
    remotes: Seq<SocketAddress>,
    local: Option<SocketAddress>,
    protocol: &'static str,
    ipv6: bool,
)
    ensures
        forall|i: int|
            0 <= i < family_candidates(remotes, local, protocol, ipv6).len() ==> {
                let c = #[trigger] family_candidates(remotes, local, protocol, ipv6)[i];
                &&& c.protocol == protocol
                &&& c.local == local
                &&& c.remote.ipv6() == ipv6
                &&& remotes.contains(c.remote)
            },
    decreases remotes.len(),
{
    if remotes.len() > 0 {
        let shorter = remotes.drop_last();
        lemma_family_candidates(shorter, local, protocol, ipv6);
        let before = family_candidates(shorter, local, protocol, ipv6);
        let all = family_candidates(remotes, local, protocol, ipv6);
        assert forall|i: int| 0 <= i < all.len() implies {
            let c = #[trigger] all[i];
            &&& c.protocol == protocol
            &&& c.local == local
            &&& c.remote.ipv6() == ipv6
            &&& remotes.contains(c.remote)
        } by {
            if i < before.len() {
                assert(all[i] == before[i]);
                let k = choose|k: int| 0 <= k < shorter.len() && shorter[k] == before[i].remote;
                assert(remotes[k] == shorter[k]);
            } else {
                assert(remotes[remotes.len() - 1] == all[i].remote);
            }
        }
    }
}

/// Every candidate of a stack carries the stack's identifier.
pub proof fn lemma_protocol_candidates(
    remotes: Seq<SocketAddress>,
    local: Option<SocketAddress>,
    protocol: &'static str,
    i: int,
)
    requires
        0 <= i < protocol_candidates(remotes, local, protocol).len(),
    ensures
        protocol_candidates(remotes, local, protocol)[i].protocol == protocol,
        protocol_candidates(remotes, local, protocol)[i].local == local,
        remotes.contains(protocol_candidates(remotes, local, protocol)[i].remote),
{
    let ipv6 = family_candidates(remotes, local, protocol, true);
    let ipv4 = family_candidates(remotes, local, protocol, false);
    lemma_family_candidates(remotes, local, protocol, true);
    lemma_family_candidates(remotes, local, protocol, false);
    lemma_interleaved_sources(ipv6, ipv4, i);
    let c = interleaved(ipv6, ipv4)[i];
    if ipv6.contains(c) {
        let k = choose|k: int| 0 <= k < ipv6.len() && ipv6[k] == c;
        assert(ipv6[k].protocol == protocol);
    } else {
        let k = choose|k: int| 0 <= k < ipv4.len() && ipv4[k] == c;
        assert(ipv4[k].protocol == protocol);
    }
}

/// Whether ranked stacks stand in descending rank.
pub open spec fn descending(order: Seq<(&'static str, u8)>) -> bool {
    forall|u: int, v: int| 0 <= u < v < order.len() ==> order[u].1 >= order[v].1
}

proof fn lemma_inserted(sorted: Seq<(&'static str, u8)>, entry: (&'static str, u8))
    requires
        descending(sorted),
    ensures
        descending(inserted(sorted, entry)),
        inserted(sorted, entry).len() == sorted.len() + 1,
        forall|k: int|
            0 <= k < inserted(sorted, entry).len() ==> (#[trigger] inserted(sorted, entry)[k])
                == entry || sorted.contains(inserted(sorted, entry)[k]),
    decreases sorted.len(),
{
    let all = inserted(sorted, entry);
    if sorted.len() == 0 {
    } else if sorted[0].1 >= entry.1 {
        let rest = sorted.drop_first();
        assert(descending(rest)) by {
            assert forall|u: int, v: int| 0 <= u < v < rest.len() implies rest[u].1
                >= rest[v].1 by {
                assert(rest[u] == sorted[u + 1] && rest[v] == sorted[v + 1]);
            }
        }
        lemma_inserted(rest, entry);
        let tail = inserted(rest, entry);
        assert(all == seq![sorted[0]] + tail);
        assert forall|k: int| 0 <= k < all.len() implies (#[trigger] all[k]) == entry
            || sorted.contains(all[k]) by {
            if k == 0 {
                assert(sorted[0] == all[0]);
            } else {
                assert(all[k] == tail[k - 1]);
                if tail[k - 1] != entry {
                    let m = choose|m: int| 0 <= m < rest.len() && rest[m] == tail[k - 1];
                    assert(sorted[m + 1] == all[k]);
                }
            }
        }
        assert forall|u: int, v: int| 0 <= u < v < all.len() implies all[u].1 >= all[v].1 by {
            assert(all[v] == tail[v - 1]);
            if u == 0 {
                if tail[v - 1] != entry {
                    let m = choose|m: int| 0 <= m < rest.len() && rest[m] == tail[v - 1];
                    assert(sorted[m + 1] == all[v]);
                }
            } else {
                assert(all[u] == tail[u - 1]);
            }
        }
    } else {
        assert(all == seq![entry] + sorted);
        assert forall|k: int| 0 <= k < all.len() implies (#[trigger] all[k]) == entry
            || sorted.contains(all[k]) by {
            if k > 0 {
                assert(sorted[k - 1] == all[k]);
            }
        }
        assert forall|u: int, v: int| 0 <= u < v < all.len() implies all[u].1 >= all[v].1 by {
            assert(all[v] == sorted[v - 1]);
            if u > 0 {
                assert(all[u] == sorted[u - 1]);
            }
        }
    }
}

/// Ordering by rank yields a sequence in descending rank, of the same
/// length, made of the stacks that went in.
pub proof fn lemma_by_descending_rank(ranks: Seq<(&'static str, u8)>)
    ensures
        descending(by_descending_rank(ranks)),
        by_descending_rank(ranks).len() == ranks.len(),
        forall|k: int|
            0 <= k < by_descending_rank(ranks).len() ==> ranks.contains(
                #[trigger] by_descending_rank(ranks)[k],
            ),
    decreases ranks.len(),
{
    if ranks.len() > 0 {
        let shorter = ranks.drop_last();
        let before = by_descending_rank(shorter);
        let all = by_descending_rank(ranks);
        lemma_by_descending_rank(shorter);
        lemma_inserted(before, ranks.last());
        assert forall|k: int| 0 <= k < all.len() implies ranks.contains(#[trigger] all[k]) by {
            if all[k] == ranks.last() {
                assert(ranks[ranks.len() - 1] == all[k]);
            } else {
                let m = choose|m: int| 0 <= m < before.len() && before[m] == all[k];
                let r = choose|r: int| 0 <= r < shorter.len() && shorter[r] == before[m];
                assert(ranks[r] == all[k]);
            }
        }
    }
}

/// The place in `order` of the stack whose candidates include index `i` of
/// the candidate list.
pub open spec fn stack_of(
    remotes: Seq<SocketAddress>,
    local: Option<SocketAddress>,
    order: Seq<(&'static str, u8)>,
    i: int,
) -> int
    decreases order.len(),
{
    if order.len() == 0 {
        0
    } else if i >= candidates_for(remotes, local, order.drop_last()).len() {
        order.len() - 1
    } else {
        stack_of(remotes, local, order.drop_last(), i)
    }
}

/// Every candidate carries the identifier of its stack, and later
/// candidates belong to the same or a later stack.
pub proof fn lemma_stack_of(
    remotes: Seq<SocketAddress>,
    local: Option<SocketAddress>,
    order: Seq<(&'static str, u8)>,
    i: int,
    j: int,
)
    requires
        0 <= i <= j < candidates_for(remotes, local, order).len(),
    ensures
        0 <= stack_of(remotes, local, order, i) <= stack_of(remotes, local, order, j) < order.len(),
        candidates_for(remotes, local, order)[i].protocol == order[stack_of(
            remotes,
            local,
            order,
            i,
        )].0,
        candidates_for(remotes, local, order)[j].protocol == order[stack_of(
            remotes,
            local,
            order,
            j,
        )].0,
    decreases order.len(),
{
    if order.len() > 0 {
        let shorter = order.drop_last();
        let before = candidates_for(remotes, local, shorter);
        let block = protocol_candidates(remotes, local, order.last().0);
        if j < before.len() {
            lemma_stack_of(remotes, local, shorter, i, j);
        } else {
            lemma_protocol_candidates(remotes, local, order.last().0, j - before.len());
            if i < before.len() {
                lemma_stack_of(remotes, local, shorter, i, i);
            } else {
                lemma_protocol_candidates(remotes, local, order.last().0, i - before.len());
            }
        }
    }
}

/// Dropping repetitions leaves every address that was there, once.
pub proof fn lemma_distinct(addresses: Seq<SocketAddress>)
    ensures
        forall|i: int, j: int|
            0 <= i < j < distinct(addresses).len() ==> distinct(addresses)[i] != distinct(
                addresses,
            )[j],
        forall|a: SocketAddress| #[trigger]
            distinct(addresses).contains(a) <==> addresses.contains(a),
    decreases addresses.len(),
{
    let all = distinct(addresses);
    if addresses.len() > 0 {
        let shorter = addresses.drop_last();
        let last = addresses.last();
        let before = distinct(shorter);
        lemma_distinct(shorter);
        assert forall|i: int, j: int| 0 <= i < j < all.len() implies all[i] != all[j] by {
            if j < before.len() {
                assert(all[i] == before[i] && all[j] == before[j]);
            } else {
                assert(all[i] == before[i]);
                assert(before.contains(before[i]));
            }
        }
        assert forall|a: SocketAddress| #[trigger] all.contains(a) <==> addresses.contains(a) by {
            if all.contains(a) {
                let k = choose|k: int| 0 <= k < all.len() && all[k] == a;
                if k < before.len() {
                    assert(before[k] == a);
                    assert(before.contains(a));
                    let m = choose|m: int| 0 <= m < shorter.len() && shorter[m] == a;
                    assert(addresses[m] == a);
                } else {
                    assert(addresses[addresses.len() - 1] == a);
                }
            }
            if addresses.contains(a) {
                let m = choose|m: int| 0 <= m < addresses.len() && addresses[m] == a;
                if m < shorter.len() {
                    assert(shorter[m] == a);
                    assert(before.contains(a));
                    let k = choose|k: int| 0 <= k < before.len() && before[k] == a;
                    assert(all[k] == a);
                } else if before.contains(a) {
                } else {
                    assert(all[all.len() - 1] == a);
                }
            }
        }
    } else {
        assert forall|a: SocketAddress| #[trigger] all.contains(a) <==> addresses.contains(a) by {
            if all.contains(a) {
                let k = choose|k: int| 0 <= k < all.len() && all[k] == a;
            }
            if addresses.contains(a) {
                let m = choose|m: int| 0 <= m < addresses.len() && addresses[m] == a;
            }
        }
    }
}

/// Every remote address gives one candidate of a stack, in the one family
/// or in the other.
pub proof fn lemma_family_lengths(
    remotes: Seq<SocketAddress>,
    local: Option<SocketAddress>,
    protocol: &'static str,
)
    ensures
        family_candidates(remotes, local, protocol, true).len() + family_candidates(
            remotes,
            local,
            protocol,
            false,
        ).len() == remotes.len(),
        protocol_candidates(remotes, local, protocol).len() == remotes.len(),
    decreases remotes.len(),
{
    if remotes.len() > 0 {
        lemma_family_lengths(remotes.drop_last(), local, protocol);
    }
    lemma_interleaved_positions(
        family_candidates(remotes, local, protocol, true),
        family_candidates(remotes, local, protocol, false),
    );
}

proof fn lemma_candidates_for_len(
    remotes: Seq<SocketAddress>,
    local: Option<SocketAddress>,
    order: Seq<(&'static str, u8)>,
)
    ensures
        candidates_for(remotes, local, order).len() == order.len() * remotes.len(),
    decreases order.len(),
{
    if order.len() > 0 {
        lemma_candidates_for_len(remotes, local, order.drop_last());
        lemma_family_lengths(remotes, local, order.last().0);
        let n = order.len() as int;
        let m = remotes.len() as int;
        assert((n - 1) * m + m == n * m) by (nonlinear_arith);
    } else {
        assert(0 * remotes.len() == 0) by (nonlinear_arith);
    }
}

/// The candidate list pairs every ranked stack with every remote address
/// that is left once repetitions are dropped: it has as many candidates as
/// there are such pairs, each candidate has one of those addresses as its
/// remote address, the local address as its local address, and the
/// identifier of one of the ranked stacks as its protocol.
pub proof fn lemma_gathered_is_a_product(
    remotes: Seq<SocketAddress>,
    local: Option<SocketAddress>,
    ranks: Seq<(&'static str, u8)>,
)
    ensures
        gathered(remotes, local, ranks).len() == ranks.len() * distinct(remotes).len(),
        forall|i: int|
            0 <= i < gathered(remotes, local, ranks).len() ==> {
                let c = #[trigger] gathered(remotes, local, ranks)[i];
                &&& remotes.contains(c.remote)
                &&& c.local == local
                &&& exists|a: int| 0 <= a < ranks.len() && #[trigger] ranks[a].0 == c.protocol
            },
{
    let addresses = distinct(remotes);
    let order = by_descending_rank(ranks);
    let all = gathered(remotes, local, ranks);
    lemma_by_descending_rank(ranks);
    lemma_candidates_for_len(addresses, local, order);
    lemma_distinct(remotes);
    assert forall|i: int| 0 <= i < all.len() implies {
        let c = #[trigger] all[i];
        &&& remotes.contains(c.remote)
        &&& c.local == local
        &&& exists|a: int| 0 <= a < ranks.len() && #[trigger] ranks[a].0 == c.protocol
    } by {
        lemma_stack_of(addresses, local, order, i, i);
        lemma_candidate_of_stack(addresses, local, order, i);
        let s = stack_of(addresses, local, order, i);
        assert(ranks.contains(order[s]));
        let a = choose|a: int| 0 <= a < ranks.len() && ranks[a] == order[s];
        assert(ranks[a].0 == all[i].protocol);
        assert(addresses.contains(all[i].remote));
    }
}

/// Every candidate has the local address and one of the remote addresses.
proof fn lemma_candidate_of_stack(
    remotes: Seq<SocketAddress>,
    local: Option<SocketAddress>,
    order: Seq<(&'static str, u8)>,
    i: int,
)
    requires
        0 <= i < candidates_for(remotes, local, order).len(),
    ensures
        candidates_for(remotes, local, order)[i].local == local,
        remotes.contains(candidates_for(remotes, local, order)[i].remote),
    decreases order.len(),
{
    if order.len() > 0 {
        let before = candidates_for(remotes, local, order.drop_last());
        if i < before.len() {
            lemma_candidate_of_stack(remotes, local, order.drop_last(), i);
        } else {
            lemma_protocol_candidates(remotes, local, order.last().0, i - before.len());
        }
    }
}

/// Candidate ordering: where the stacks have distinct identifiers, every
/// candidate of a stack of higher rank stands before every candidate of a
/// stack of lower rank.
pub proof fn lemma_higher_rank_first(
    remotes: Seq<SocketAddress>,
    local: Option<SocketAddress>,
    ranks: Seq<(&'static str, u8)>,
    a: int,
    b: int,
    i: int,
    j: int,
)
    requires
        forall|u: int, v: int| 0 <= u < v < ranks.len() ==> ranks[u].0 != ranks[v].0,
        0 <= a < ranks.len(),
        0 <= b < ranks.len(),
        ranks[a].1 > ranks[b].1,
        0 <= i < gathered(remotes, local, ranks).len(),
        0 <= j < gathered(remotes, local, ranks).len(),
        gathered(remotes, local, ranks)[i].protocol == ranks[a].0,
        gathered(remotes, local, ranks)[j].protocol == ranks[b].0,
    ensures
        i < j,
{
    let addresses = distinct(remotes);
    let order = by_descending_rank(ranks);
    lemma_by_descending_rank(ranks);
    if j <= i {
        lemma_stack_of(addresses, local, order, j, i);
        let si = stack_of(addresses, local, order, i);
        let sj = stack_of(addresses, local, order, j);
        let mi = choose|m: int| 0 <= m < ranks.len() && ranks[m] == order[si];
        let mj = choose|m: int| 0 <= m < ranks.len() && ranks[m] == order[sj];
        assert(mi == a);
        assert(mj == b);
        assert(order[sj].1 >= order[si].1);
    }
}

} // verus!
