//! The ordering table: a fixed row of bucket heads, each the start of a chain
//! of packets.
//!
//! Convention, fixed here once: a packet is linked in front of its bucket, so
//! a chain reads last inserted first; and the table is transmitted from its
//! last bucket down to bucket 0, so a higher bucket is drawn earlier and lies
//! further back on screen.

use crate::arena::{ArenaView, GraphicsBuffer};
use crate::chain::{
    chain_of, has_chain, is_chain, is_path, lemma_chain_bounded, lemma_chain_of,
    lemma_link_in_front, lemma_path_is_prefix, lemma_path_push, lemma_path_untouched,
    lemma_terminator_chain,
};
use crate::packet::{Link, Packet, PacketRef};
use vstd::prelude::*;

verus! {

/// A table and the link fields of its arena, as one value.
pub struct TableView {
    /// Link field of every bucket head.
    pub heads: Seq<Link>,
    /// Link field of every carved packet, by slot.
    pub links: Seq<Link>,
}

impl TableView {
    /// The table after `p` was linked in front of `bucket`.
    pub open spec fn insert(self, bucket: int, p: PacketRef) -> TableView {
        TableView {
            heads: self.heads.update(bucket, Link::Packet(p)),
            links: self.links.update(p.slot as int, self.heads[bucket]),
        }
    }

    /// The table after the packets `ps` were linked in front of `bucket`, in
    /// order.
    pub open spec fn insert_all(self, bucket: int, ps: Seq<PacketRef>) -> TableView
        decreases ps.len(),
    {
        if ps.len() == 0 {
            self
        } else {
            self.insert_all(bucket, ps.drop_last()).insert(bucket, ps.last())
        }
    }

    /// The table after `bucket` was emptied.
    pub open spec fn reset_bucket(self, bucket: int) -> TableView {
        TableView { heads: self.heads.update(bucket, Link::Terminator), links: self.links }
    }

    /// `chain` is what one reads from the head of `bucket`.
    pub open spec fn reads(self, bucket: int, chain: Seq<PacketRef>) -> bool {
        is_chain(self.links, self.heads[bucket], chain)
    }

    /// Every bucket leads to a chain.
    pub open spec fn all_chained(self) -> bool {
        forall|b: int| 0 <= b < self.heads.len() ==> has_chain(self.links, #[trigger] self.heads[b])
    }

    /// The chains of the buckets from the last one down to `lo`, one after
    /// the other.
    pub open spec fn display_list(self, lo: int) -> Seq<PacketRef>
        decreases self.heads.len() - lo,
    {
        if lo < 0 || lo >= self.heads.len() {
            Seq::empty()
        } else {
            self.display_list(lo + 1) + chain_of(self.links, self.heads[lo])
        }
    }
}

/// Linking in front is last in, first out: a packet that is not on the chain
/// of its bucket becomes the first of that chain, and the old chain follows.
pub proof fn lemma_insert_is_lifo(t: TableView, bucket: int, chain: Seq<PacketRef>, p: PacketRef)
    requires
        0 <= bucket < t.heads.len(),
        t.reads(bucket, chain),
        !chain.contains(p),
        p.slot < t.links.len(),
    ensures
        t.insert(bucket, p).reads(bucket, seq![p] + chain),
{
    lemma_link_in_front(t.links, t.heads[bucket], chain, p);
}

/// Linking into one bucket leaves the chain of another as it was, where the
/// packet is not on that chain.
pub proof fn lemma_insert_leaves_other_buckets(
    t: TableView,
    bucket: int,
    p: PacketRef,
    other: int,
    chain: Seq<PacketRef>,
)
    requires
        0 <= bucket < t.heads.len(),
        0 <= other < t.heads.len(),
        other != bucket,
        t.reads(other, chain),
        !chain.contains(p),
        p.slot < t.links.len(),
    ensures
        t.insert(bucket, p).reads(other, chain),
{
    lemma_path_untouched(t.links, t.heads[other], chain, Link::Terminator, p, t.heads[bucket]);
}

/// Where every packet of `ps` is carved and none is on `chain`, the same
/// holds of all but the last of them.
proof fn lemma_earlier_packets(ps: Seq<PacketRef>, carved: nat, chain: Seq<PacketRef>)
    requires
        ps.len() > 0,
        forall|k: int| 0 <= k < ps.len() ==> (#[trigger] ps[k]).slot < carved,
        forall|k: int| 0 <= k < ps.len() ==> !chain.contains(#[trigger] ps[k]),
    ensures
        forall|k: int|
            0 <= k < ps.drop_last().len() ==> (#[trigger] ps.drop_last()[k]).slot < carved,
        forall|k: int|
            0 <= k < ps.drop_last().len() ==> !chain.contains(#[trigger] ps.drop_last()[k]),
{
    let earlier = ps.drop_last();
    assert forall|k: int| 0 <= k < earlier.len() implies (#[trigger] earlier[k]).slot < carved
        && !chain.contains(earlier[k]) by {
        assert(earlier[k] == ps[k]);
    }
}

/// After the packets `ps` were linked in front of a bucket one by one, the
/// bucket reads them back in reverse, followed by what it held before. The
/// packets have to differ from one another and from those already on the
/// chain: a packet linked twice would lead back to itself.
pub proof fn lemma_inserts_read_back_reversed(
    t: TableView,
    bucket: int,
    chain: Seq<PacketRef>,
    ps: Seq<PacketRef>,
)
    requires
        0 <= bucket < t.heads.len(),
        t.reads(bucket, chain),
        ps.no_duplicates(),
        forall|k: int| 0 <= k < ps.len() ==> (#[trigger] ps[k]).slot < t.links.len(),
        forall|k: int| 0 <= k < ps.len() ==> !chain.contains(#[trigger] ps[k]),
    ensures
        t.insert_all(bucket, ps).heads.len() == t.heads.len(),
        t.insert_all(bucket, ps).links.len() == t.links.len(),
        t.insert_all(bucket, ps).reads(bucket, ps.reverse() + chain),
    decreases ps.len(),
{
    if ps.len() == 0 {
        assert(ps.reverse() + chain =~= chain);
    } else {
        let earlier = ps.drop_last();
        let p = ps.last();
        lemma_earlier_packets(ps, t.links.len(), chain);
        lemma_inserts_read_back_reversed(t, bucket, chain, earlier);
        let before = t.insert_all(bucket, earlier);
        let held = earlier.reverse() + chain;
        assert(!held.contains(p)) by {
            if held.contains(p) {
                let i = choose|i: int| 0 <= i < held.len() && held[i] == p;
                if i < earlier.len() {
                    assert(held[i] == earlier[earlier.len() - 1 - i]);
                    assert(ps[earlier.len() - 1 - i] == ps[ps.len() - 1]);
                } else {
                    assert(held[i] == chain[i - earlier.len()]);
                    assert(chain.contains(p));
                }
            }
        }
        lemma_insert_is_lifo(before, bucket, held, p);
        assert(seq![p] + held =~= ps.reverse() + chain);
    }
}

/// Linking packets into one bucket leaves the chain of another as it was,
/// where none of them is on that chain.
pub proof fn lemma_inserts_leave_other_buckets(
    t: TableView,
    bucket: int,
    ps: Seq<PacketRef>,
    other: int,
    chain: Seq<PacketRef>,
)
    requires
        0 <= bucket < t.heads.len(),
        0 <= other < t.heads.len(),
        other != bucket,
        t.reads(other, chain),
        forall|k: int| 0 <= k < ps.len() ==> (#[trigger] ps[k]).slot < t.links.len(),
        forall|k: int| 0 <= k < ps.len() ==> !chain.contains(#[trigger] ps[k]),
    ensures
        t.insert_all(bucket, ps).heads.len() == t.heads.len(),
        t.insert_all(bucket, ps).links.len() == t.links.len(),
        t.insert_all(bucket, ps).reads(other, chain),
    decreases ps.len(),
{
    if ps.len() > 0 {
        let earlier = ps.drop_last();
        lemma_earlier_packets(ps, t.links.len(), chain);
        lemma_inserts_leave_other_buckets(t, bucket, earlier, other, chain);
        lemma_insert_leaves_other_buckets(
            t.insert_all(bucket, earlier),
            bucket,
            ps.last(),
            other,
            chain,
        );
    }
}

/// An emptied bucket reads as the empty chain and as nothing else: its head
/// link is the terminator.
pub proof fn lemma_reset_bucket_empties(t: TableView, bucket: int, chain: Seq<PacketRef>)
    requires
        0 <= bucket < t.heads.len(),
    ensures
        t.reset_bucket(bucket).heads[bucket] == Link::Terminator,
        t.reset_bucket(bucket).reads(bucket, chain) <==> chain.len() == 0,
{
    lemma_terminator_chain(t.links, chain);
}

/// A table of `N` buckets.
#[derive(Debug, PartialEq, Eq)]
pub struct OrderingTable<const N: usize> {
    heads: [Link; N],
}

impl<const N: usize> Clone for OrderingTable<N> {
    fn clone(&self) -> (copy: Self)
        ensures
            copy@ == self@,
    {
        OrderingTable { heads: self.heads }
    }
}

impl<const N: usize> View for OrderingTable<N> {
    type V = Seq<Link>;

    closed spec fn view(&self) -> Seq<Link> {
        self.heads@
    }
}

impl<const N: usize> OrderingTable<N> {
    /// The table together with the link fields of `buffer`.
    pub open spec fn over<const LEN: usize>(&self, buffer: &GraphicsBuffer<LEN>) -> TableView {
        TableView { heads: self@, links: buffer.links() }
    }

    /// The view has one link for each bucket.
    pub proof fn lemma_len(&self)
        ensures
            self@.len() == N,
    {
    }

    /// A table whose buckets are all empty.
    pub fn new() -> (table: Self)
        ensures
            table@ == Seq::new(N as nat, |b: int| Link::Terminator),
    {
        let table = OrderingTable { heads: [Link::Terminator;N] };
        assert(table@ =~= Seq::new(N as nat, |b: int| Link::Terminator));
        table
    }

    /// Number of buckets.
    pub fn len(&self) -> (n: usize)
        ensures
            n == N,
            n == self@.len(),
    {
        N
    }

    /// The link field of the head of `bucket`.
    pub fn head_link(&self, bucket: usize) -> (link: Link)
        requires
            bucket < N,
        ensures
            link == self@[bucket as int],
    {
        self.heads[bucket]
    }

    /// Empties `bucket`: its head link becomes the terminator.
    pub fn reset_bucket(&mut self, bucket: usize)
        requires
            bucket < N,
        ensures
            final(self)@ == old(self)@.update(bucket as int, Link::Terminator),
            final(self)@[bucket as int] == Link::Terminator,
    {
        self.heads[bucket] = Link::Terminator;
    }

    /// Empties every bucket.
    pub fn clear(&mut self)
        ensures
            final(self)@ == Seq::new(N as nat, |b: int| Link::Terminator),
    {
        let mut bucket: usize = 0;
        while bucket < N
            invariant
                bucket <= N,
                forall|b: int| 0 <= b < bucket ==> self@[b] == Link::Terminator,
            decreases N - bucket,
        {
            self.reset_bucket(bucket);
            bucket += 1;
        }
        assert(self@ =~= Seq::new(N as nat, |b: int| Link::Terminator));
    }

    /// Links `packet` in front of `bucket`: the packet's link field takes the
    /// head's link, and the head then names the packet.
    pub fn insert<const LEN: usize>(
        &mut self,
        bucket: usize,
        buffer: &mut GraphicsBuffer<LEN>,
        packet: PacketRef,
    )
        requires
            bucket < N,
            old(buffer).holds(packet),
        ensures
            final(self).over(final(buffer)) == old(self).over(old(buffer)).insert(
                bucket as int,
                packet,
            ),
            final(buffer)@ == (ArenaView {
                cursor: old(buffer)@.cursor,
                packets: old(buffer)@.packets.update(
                    packet.slot as int,
                    Packet {
                        next: old(self)@[bucket as int],
                        ..old(buffer)@.packets[packet.slot as int]
                    },
                ),
            }),
            old(buffer).wf() ==> final(buffer).wf(),
            forall|chain: Seq<PacketRef>|
                #![trigger old(self).over(old(buffer)).reads(bucket as int, chain)]
                old(self).over(old(buffer)).reads(bucket as int, chain) && !chain.contains(packet)
                    ==> final(self).over(final(buffer)).reads(bucket as int, seq![packet] + chain),
    {
        let head = self.heads[bucket];
        buffer.set_link(packet, head);
        self.heads[bucket] = Link::Packet(packet);
        proof {
            let before = old(self).over(old(buffer));
            assert forall|chain: Seq<PacketRef>|
                #![trigger before.reads(bucket as int, chain)]
                before.reads(bucket as int, chain) && !chain.contains(packet) implies before.insert(
                bucket as int,
                packet,
            ).reads(bucket as int, seq![packet] + chain) by {
                lemma_insert_is_lifo(before, bucket as int, chain, packet);
            }
        }
    }

    /// Reads the chain of `bucket` from its head: the packets in the order
    /// the links give. `None` when following the links does not end at the
    /// terminator: they run in a circle, or name a slot that was not carved.
    pub fn chain<const LEN: usize>(&self, buffer: &GraphicsBuffer<LEN>, bucket: usize) -> (r:
        Option<Vec<PacketRef>>)
        requires
            bucket < N,
        ensures
            r is Some <==> has_chain(buffer.links(), self@[bucket as int]),
            r matches Some(chain) ==> {
                &&& self.over(buffer).reads(bucket as int, chain@)
                &&& chain@ == chain_of(buffer.links(), self@[bucket as int])
            },
    {
        let start = self.heads[bucket];
        let n: usize = buffer.len();
        let mut path: Vec<PacketRef> = Vec::new();
        let mut cur = start;
        loop
            invariant
                start == self@[bucket as int],
                n == buffer.links().len(),
                path.len() <= n,
                is_path(buffer.links(), start, path@, cur),
            decreases n - path.len(),
        {
            match cur {
                Link::Terminator => {
                    proof {
                        lemma_chain_of(buffer.links(), start, path@);
                    }
                    return Some(path);
                },
                Link::Packet(p) => {
                    if p.slot >= n || path.len() >= n {
                        proof {
                            if has_chain(buffer.links(), start) {
                                let chain = chain_of(buffer.links(), start);
                                lemma_path_is_prefix(buffer.links(), start, path@, cur, chain);
                                lemma_chain_bounded(buffer.links(), start, chain);
                                assert(chain[path.len() as int] == p);
                            }
                        }
                        return None;
                    }
                    let next = buffer.link(p);
                    proof {
                        lemma_path_push(buffer.links(), start, path@, p);
                    }
                    path.push(p);
                    cur = next;
                },
            }
        }
    }

    /// The list to transmit: the chains of all buckets, from the last bucket
    /// down to bucket 0. `None` when some bucket has no chain.
    pub fn reverse_for_transmission<const LEN: usize>(&self, buffer: &GraphicsBuffer<LEN>) -> (r:
        Option<Vec<PacketRef>>)
        ensures
            r is Some <==> self.over(buffer).all_chained(),
            r matches Some(list) ==> list@ == self.over(buffer).display_list(0),
    {
        let ghost t = self.over(buffer);
        let mut list: Vec<PacketRef> = Vec::new();
        let mut bucket: usize = N;
        while bucket > 0
            invariant
                bucket <= N,
                t == self.over(buffer),
                t.heads.len() == N,
                list@ == t.display_list(bucket as int),
                forall|b: int| bucket <= b < N ==> has_chain(t.links, #[trigger] t.heads[b]),
            decreases bucket,
        {
            bucket -= 1;
            match self.chain(buffer, bucket) {
                None => {
                    return None;
                },
                Some(mut chain) => {
                    list.append(&mut chain);
                },
            }
        }
        Some(list)
    }
}

} // verus!
