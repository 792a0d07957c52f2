//! Chains: what one meets when following link fields from a starting link.

use crate::packet::{Link, PacketRef};
use vstd::prelude::*;
use vstd::set_lib::{lemma_int_range, lemma_len_subset, set_int_range};

verus! {

/// The link that leads to position `k` of `chain`: that packet, or the
/// terminator past the end.
pub open spec fn link_to(chain: Seq<PacketRef>, k: int, end: Link) -> Link {
    if 0 <= k < chain.len() {
        Link::Packet(chain[k])
    } else {
        end
    }
}

/// Following `links` from `start` one meets exactly the packets of `path`, in
/// order, and the link field of the last one holds `end`.
pub open spec fn is_path(links: Seq<Link>, start: Link, path: Seq<PacketRef>, end: Link) -> bool {
    &&& start == link_to(path, 0, end)
    &&& forall|k: int|
        0 <= k < path.len() ==> {
            &&& (#[trigger] path[k]).slot < links.len()
            &&& links[path[k].slot as int] == link_to(path, k + 1, end)
        }
}

/// `chain` is what `start` leads to: a path that ends at the terminator.
pub open spec fn is_chain(links: Seq<Link>, start: Link, chain: Seq<PacketRef>) -> bool {
    is_path(links, start, chain, Link::Terminator)
}

/// Following `links` from `start` reaches the terminator.
pub open spec fn has_chain(links: Seq<Link>, start: Link) -> bool {
    exists|chain: Seq<PacketRef>| is_chain(links, start, chain)
}

/// The chain that `start` leads to, where there is one.
pub open spec fn chain_of(links: Seq<Link>, start: Link) -> Seq<PacketRef> {
    choose|chain: Seq<PacketRef>| is_chain(links, start, chain)
}

/// A path whose last link names a carved packet goes on through it.
pub proof fn lemma_path_push(links: Seq<Link>, start: Link, path: Seq<PacketRef>, p: PacketRef)
    requires
        is_path(links, start, path, Link::Packet(p)),
        p.slot < links.len(),
    ensures
        is_path(links, start, path.push(p), links[p.slot as int]),
{
    let longer = path.push(p);
    let end = links[p.slot as int];
    assert forall|k: int| 0 <= k < longer.len() implies {
        &&& (#[trigger] longer[k]).slot < links.len()
        &&& links[longer[k].slot as int] == link_to(longer, k + 1, end)
    } by {
        if k < path.len() {
            assert(longer[k] == path[k]);
        }
    }
}

proof fn lemma_path_agrees_upto(
    links: Seq<Link>,
    start: Link,
    path: Seq<PacketRef>,
    end: Link,
    chain: Seq<PacketRef>,
    k: int,
)
    requires
        is_path(links, start, path, end),
        is_chain(links, start, chain),
        0 <= k <= path.len(),
    ensures
        k <= chain.len(),
        forall|j: int| 0 <= j < k ==> chain[j] == path[j],
    decreases k,
{
    if k > 0 {
        lemma_path_agrees_upto(links, start, path, end, chain, k - 1);
        if k == 1 {
            assert(start == Link::Packet(path[0]));
        } else {
            assert(chain[k - 2] == path[k - 2]);
            assert(links[path[k - 2].slot as int] == Link::Packet(path[k - 1]));
            assert(links[chain[k - 2].slot as int] == link_to(chain, k - 1, Link::Terminator));
        }
    }
}

/// Where `start` leads to a chain, every path from `start` is a prefix of
/// that chain, and its last link is the one the chain follows next.
pub proof fn lemma_path_is_prefix(
    links: Seq<Link>,
    start: Link,
    path: Seq<PacketRef>,
    end: Link,
    chain: Seq<PacketRef>,
)
    requires
        is_path(links, start, path, end),
        is_chain(links, start, chain),
    ensures
        path.len() <= chain.len(),
        chain.take(path.len() as int) == path,
        end == link_to(chain, path.len() as int, Link::Terminator),
{
    lemma_path_agrees_upto(links, start, path, end, chain, path.len() as int);
    assert(chain.take(path.len() as int) =~= path);
    if path.len() > 0 {
        let last = path.len() - 1;
        assert(chain[last] == path[last]);
        assert(links[path[last].slot as int] == end);
    }
}

/// A starting link leads to one chain at most.
pub proof fn lemma_chain_unique(
    links: Seq<Link>,
    start: Link,
    first: Seq<PacketRef>,
    second: Seq<PacketRef>,
)
    requires
        is_chain(links, start, first),
        is_chain(links, start, second),
    ensures
        first == second,
{
    lemma_path_is_prefix(links, start, first, Link::Terminator, second);
    lemma_path_is_prefix(links, start, second, Link::Terminator, first);
    assert(second.take(first.len() as int) =~= second);
}

/// `chain_of` is the chain, once any is known.
pub proof fn lemma_chain_of(links: Seq<Link>, start: Link, chain: Seq<PacketRef>)
    requires
        is_chain(links, start, chain),
    ensures
        has_chain(links, start),
        chain_of(links, start) == chain,
{
    lemma_chain_unique(links, start, chain, chain_of(links, start));
}

/// The terminator leads to the empty chain and to no other.
pub proof fn lemma_terminator_chain(links: Seq<Link>, chain: Seq<PacketRef>)
    ensures
        is_chain(links, Link::Terminator, chain) <==> chain.len() == 0,
        has_chain(links, Link::Terminator),
        chain_of(links, Link::Terminator) == Seq::<PacketRef>::empty(),
{
    assert(is_chain(links, Link::Terminator, Seq::<PacketRef>::empty()));
    lemma_chain_of(links, Link::Terminator, Seq::<PacketRef>::empty());
}

/// What follows position `k` of a chain is the chain of the packet at `k`.
pub proof fn lemma_chain_suffix(links: Seq<Link>, start: Link, chain: Seq<PacketRef>, k: int)
    requires
        is_chain(links, start, chain),
        0 <= k < chain.len(),
    ensures
        is_chain(links, Link::Packet(chain[k]), chain.skip(k)),
{
    let rest = chain.skip(k);
    assert forall|j: int| 0 <= j < rest.len() implies {
        &&& (#[trigger] rest[j]).slot < links.len()
        &&& links[rest[j].slot as int] == link_to(rest, j + 1, Link::Terminator)
    } by {
        assert(rest[j] == chain[k + j]);
    }
}

/// No packet occurs twice in a chain.
pub proof fn lemma_chain_no_duplicates(links: Seq<Link>, start: Link, chain: Seq<PacketRef>)
    requires
        is_chain(links, start, chain),
    ensures
        chain.no_duplicates(),
{
    assert forall|i: int, j: int| 0 <= i < chain.len() && 0 <= j < chain.len() && i != j implies chain[i]
        != chain[j] by {
        if chain[i] == chain[j] {
            lemma_chain_suffix(links, start, chain, i);
            lemma_chain_suffix(links, start, chain, j);
            lemma_chain_unique(links, Link::Packet(chain[i]), chain.skip(i), chain.skip(j));
            assert(chain.skip(i).len() != chain.skip(j).len());
        }
    }
}

/// A chain is no longer than the number of carved packets.
pub proof fn lemma_chain_bounded(links: Seq<Link>, start: Link, chain: Seq<PacketRef>)
    requires
        is_chain(links, start, chain),
    ensures
        chain.len() <= links.len(),
{
    lemma_chain_no_duplicates(links, start, chain);
    let slots = Seq::new(chain.len(), |k: int| chain[k].slot as int);
    assert(slots.no_duplicates()) by {
        assert forall|i: int, j: int|
            0 <= i < slots.len() && 0 <= j < slots.len() && i != j implies slots[i]
            != slots[j] by {
            assert(chain[i] != chain[j]);
        }
    }
    slots.unique_seq_to_set();
    lemma_int_range(0, links.len() as int);
    assert(slots.to_set().subset_of(set_int_range(0, links.len() as int))) by {
        assert forall|x: int| slots.to_set().contains(x) implies set_int_range(
            0,
            links.len() as int,
        ).contains(x) by {
            let k = choose|k: int| 0 <= k < slots.len() && slots[k] == x;
            assert(chain[k].slot < links.len());
        }
    }
    lemma_len_subset(slots.to_set(), set_int_range(0, links.len() as int));
}

/// Carving more packets leaves every path as it was.
pub proof fn lemma_path_extends(
    links: Seq<Link>,
    start: Link,
    path: Seq<PacketRef>,
    end: Link,
    longer: Seq<Link>,
)
    requires
        is_path(links, start, path, end),
        links.len() <= longer.len(),
        longer.take(links.len() as int) == links,
    ensures
        is_path(longer, start, path, end),
{
    assert forall|k: int| 0 <= k < path.len() implies {
        &&& (#[trigger] path[k]).slot < longer.len()
        &&& longer[path[k].slot as int] == link_to(path, k + 1, end)
    } by {
        assert(longer.take(links.len() as int)[path[k].slot as int] == longer[path[k].slot as int]);
    }
}

/// Writing the link field of a packet that a path does not pass leaves the
/// path as it was.
pub proof fn lemma_path_untouched(
    links: Seq<Link>,
    start: Link,
    path: Seq<PacketRef>,
    end: Link,
    p: PacketRef,
    next: Link,
)
    requires
        is_path(links, start, path, end),
        !path.contains(p),
        p.slot < links.len(),
    ensures
        is_path(links.update(p.slot as int, next), start, path, end),
{
    let written = links.update(p.slot as int, next);
    assert forall|k: int| 0 <= k < path.len() implies {
        &&& (#[trigger] path[k]).slot < written.len()
        &&& written[path[k].slot as int] == link_to(path, k + 1, end)
    } by {
        assert(path.contains(path[k]));
        assert(path[k] != p);
    }
}

/// Linking a packet in front: when `p` is not on the chain that `start` leads
/// to, and its link field is set to `start`, then `p` leads to itself followed
/// by that chain.
pub proof fn lemma_link_in_front(
    links: Seq<Link>,
    start: Link,
    chain: Seq<PacketRef>,
    p: PacketRef,
)
    requires
        is_chain(links, start, chain),
        !chain.contains(p),
        p.slot < links.len(),
    ensures
        is_chain(links.update(p.slot as int, start), Link::Packet(p), seq![p] + chain),
{
    let written = links.update(p.slot as int, start);
    let longer = seq![p] + chain;
    lemma_path_untouched(links, start, chain, Link::Terminator, p, start);
    assert forall|k: int| 0 <= k < longer.len() implies {
        &&& (#[trigger] longer[k]).slot < written.len()
        &&& written[longer[k].slot as int] == link_to(longer, k + 1, Link::Terminator)
    } by {
        if k == 0 {
            assert(longer[0] == p);
            if chain.len() > 0 {
                assert(longer[1] == chain[0]);
            }
        } else {
            assert(longer[k] == chain[k - 1]);
            if k < chain.len() {
                assert(longer[k + 1] == chain[k]);
            }
        }
    }
}

} // verus!
