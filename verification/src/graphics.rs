//! The two buffer sets and the flag that tells which one is being built.
//!
//! At any time one set is the draw set, written by the builder, and the other
//! is the display set, read by the hardware. `swap` exchanges the two roles.

use crate::arena::{fits, ArenaView, GraphicsBuffer, GraphicsBufferFullError};
use crate::chain::{lemma_link_in_front, lemma_path_extends};
use crate::ordering_table::{OrderingTable, TableView};
use crate::packet::{Command, Link, Packet, PacketRef};
use vstd::prelude::*;

verus! {

/// Buckets in each ordering table.
pub const OT_SIZE: usize = 8;

/// Bytes in each arena.
pub const BUF_SIZE: usize = 32768;

/// One buffer set: an ordering table and the arena its packets come from.
#[derive(Debug, PartialEq, Eq)]
pub struct GraphicsEnv {
    pub otc: OrderingTable<OT_SIZE>,
    pub buffer: GraphicsBuffer<BUF_SIZE>,
}

impl Clone for GraphicsEnv {
    fn clone(&self) -> (copy: Self)
        ensures
            copy@ == self@,
    {
        GraphicsEnv { otc: self.otc.clone(), buffer: self.buffer.clone() }
    }
}

/// A buffer set as a value: the head links of its table and its arena.
pub struct EnvView {
    pub heads: Seq<Link>,
    pub arena: ArenaView,
}

impl EnvView {
    /// The head links together with the link fields of the arena.
    pub open spec fn table(self) -> TableView {
        TableView { heads: self.heads, links: self.arena.links() }
    }

    /// The handle that the next carved packet gets.
    pub open spec fn next_ref(self) -> PacketRef {
        PacketRef { slot: self.arena.packets.len() as usize }
    }

    /// The set after a packet carrying `contents` was carved and linked in
    /// front of `bucket`; the same set when the arena is full.
    pub open spec fn add(self, bucket: int, contents: Command, cap: usize) -> EnvView {
        let len = contents.spec_packet_len() as usize;
        match self.arena.offer(len, cap) {
            Some(at) => EnvView {
                heads: self.heads.update(bucket, Link::Packet(self.next_ref())),
                arena: ArenaView {
                    cursor: (at + len) as nat,
                    packets: self.arena.packets.push(
                        Packet { offset: at, len, next: self.heads[bucket], contents: Some(contents) },
                    ),
                },
            },
            None => self,
        }
    }
}

impl View for GraphicsEnv {
    type V = EnvView;

    open spec fn view(&self) -> EnvView {
        EnvView { heads: self.otc@, arena: self.buffer@ }
    }
}

/// A packet that was just carved is on no chain yet, so adding it is always
/// last in, first out: the bucket then reads the new packet followed by what
/// it read before.
pub proof fn lemma_add_is_lifo(
    v: EnvView,
    bucket: int,
    contents: Command,
    cap: usize,
    chain: Seq<PacketRef>,
)
    requires
        0 <= bucket < v.heads.len(),
        v.arena.packets.len() <= usize::MAX,
        v.arena.offer(contents.spec_packet_len() as usize, cap) is Some,
        v.table().reads(bucket, chain),
    ensures
        v.add(bucket, contents, cap).table().reads(bucket, seq![v.next_ref()] + chain),
{
    // Carve first, with any link; then set the link of the new packet to the old head.
    let after = v.add(bucket, contents, cap).table();
    let carved = v.table().links.push(Link::Terminator);
    assert(carved.take(v.table().links.len() as int) =~= v.table().links);
    lemma_path_extends(v.table().links, v.heads[bucket], chain, Link::Terminator, carved);
    assert(!chain.contains(v.next_ref())) by {
        if chain.contains(v.next_ref()) {
            let k = choose|k: int| 0 <= k < chain.len() && chain[k] == v.next_ref();
            assert(chain[k].slot < v.table().links.len());
        }
    }
    lemma_link_in_front(carved, v.heads[bucket], chain, v.next_ref());
    assert(after.links =~= carved.update(v.next_ref().slot as int, v.heads[bucket]));
}

/// Adding a packet to one bucket leaves the chain of every other bucket as it
/// was.
pub proof fn lemma_add_leaves_other_buckets(
    v: EnvView,
    bucket: int,
    contents: Command,
    cap: usize,
    other: int,
    chain: Seq<PacketRef>,
)
    requires
        0 <= bucket < v.heads.len(),
        0 <= other < v.heads.len(),
        other != bucket,
        v.table().reads(other, chain),
    ensures
        v.add(bucket, contents, cap).table().reads(other, chain),
{
    let after = v.add(bucket, contents, cap).table();
    assert(after.links.take(v.table().links.len() as int) =~= v.table().links);
    lemma_path_extends(v.table().links, v.heads[other], chain, Link::Terminator, after.links);
}

/// Names the two buffer sets. `A` is the one built first.
#[derive(Clone, Copy, Debug, PartialEq, Eq, Structural)]
pub enum Side {
    A,
    B,
}

/// The set being built under a given flag.
pub open spec fn draw_side_of(swapped: bool) -> Side {
    if swapped {
        Side::A
    } else {
        Side::B
    }
}

/// The set being shown under a given flag.
pub open spec fn display_side_of(swapped: bool) -> Side {
    if swapped {
        Side::B
    } else {
        Side::A
    }
}

/// The flag after `swaps` calls of `swap`, starting from `swapped`.
pub open spec fn swapped_after(swapped: bool, swaps: nat) -> bool
    decreases swaps,
{
    if swaps == 0 {
        swapped
    } else {
        !swapped_after(swapped, (swaps - 1) as nat)
    }
}

/// Both buffer sets and the flag.
#[derive(Debug, PartialEq, Eq)]
pub struct GraphicsState {
    a: GraphicsEnv,
    b: GraphicsEnv,
    swapped: bool,
}

impl Clone for GraphicsState {
    fn clone(&self) -> (copy: Self)
        ensures
            copy.swapped() == self.swapped(),
            copy.set(Side::A)@ == self.set(Side::A)@,
            copy.set(Side::B)@ == self.set(Side::B)@,
    {
        GraphicsState { a: self.a.clone(), b: self.b.clone(), swapped: self.swapped }
    }
}

impl GraphicsEnv {
    /// What `new` builds: empty buckets over an empty arena.
    pub open spec fn spec_new() -> EnvView {
        EnvView {
            heads: Seq::new(OT_SIZE as nat, |b: int| Link::Terminator),
            arena: ArenaView::empty(),
        }
    }

    /// A set with empty buckets and an empty arena.
    pub fn new() -> (env: Self)
        ensures
            env@ == Self::spec_new(),
            env.buffer.wf(),
    {
        GraphicsEnv { otc: OrderingTable::new(), buffer: GraphicsBuffer::new() }
    }

    /// Empties the set: every bucket and the arena.
    pub fn clear(&mut self)
        ensures
            final(self)@ == Self::spec_new(),
            final(self).buffer.wf(),
    {
        self.otc.clear();
        self.buffer.reset();
    }

    /// Carves a packet for `contents`, assigns it and links it in front of
    /// `bucket`. When the arena is full nothing changes and the primitive is
    /// left out.
    pub fn add_primitive(&mut self, bucket: usize, contents: Command) -> (r: Result<
        PacketRef,
        GraphicsBufferFullError,
    >)
        requires
            bucket < OT_SIZE,
        ensures
            final(self)@ == old(self)@.add(bucket as int, contents, BUF_SIZE),
            r is Ok <==> fits(
                old(self)@.arena.cursor as int,
                contents.spec_packet_len() as int,
                BUF_SIZE as int,
            ),
            r matches Ok(p) ==> p == old(self)@.next_ref(),
            r matches Err(e) ==> e == (GraphicsBufferFullError {
                index: old(self)@.arena.cursor as usize,
                packet_len: contents.spec_packet_len() as usize,
                max_len: BUF_SIZE,
            }),
            old(self).buffer.wf() ==> final(self).buffer.wf(),
            r is Ok ==> forall|chain: Seq<PacketRef>|
                #![trigger old(self)@.table().reads(bucket as int, chain)]
                old(self)@.table().reads(bucket as int, chain) ==> final(self)@.table().reads(
                    bucket as int,
                    seq![old(self)@.next_ref()] + chain,
                ),
            forall|other: int, chain: Seq<PacketRef>|
                #![trigger old(self)@.table().reads(other, chain)]
                0 <= other < OT_SIZE && other != bucket && old(self)@.table().reads(other, chain)
                    ==> final(self)@.table().reads(other, chain),
    {
        let packet_len: usize = contents.packet_len();
        proof {
            self.otc.lemma_len();
        }
        match self.buffer.new_primitive(packet_len) {
            Err(e) => Err(e),
            Ok(p) => {
                self.buffer.set_contents(p, contents);
                self.otc.insert(bucket, &mut self.buffer, p);
                proof {
                    let before = old(self)@;
                    assert(self@.arena.packets =~= before.add(
                        bucket as int,
                        contents,
                        BUF_SIZE,
                    ).arena.packets);
                    assert forall|chain: Seq<PacketRef>|
                        #![trigger before.table().reads(bucket as int, chain)]
                        before.table().reads(bucket as int, chain) implies self@.table().reads(
                        bucket as int,
                        seq![before.next_ref()] + chain,
                    ) by {
                        lemma_add_is_lifo(before, bucket as int, contents, BUF_SIZE, chain);
                    }
                    assert forall|other: int, chain: Seq<PacketRef>|
                        #![trigger before.table().reads(other, chain)]
                        0 <= other < OT_SIZE && other != bucket && before.table().reads(
                            other,
                            chain,
                        ) implies self@.table().reads(other, chain) by {
                        lemma_add_leaves_other_buckets(
                            before,
                            bucket as int,
                            contents,
                            BUF_SIZE,
                            other,
                            chain,
                        );
                    }
                }
                Ok(p)
            },
        }
    }
}

impl GraphicsState {
    /// The flag.
    pub closed spec fn swapped(&self) -> bool {
        self.swapped
    }

    /// The buffer set of the given name.
    pub closed spec fn set(&self, side: Side) -> GraphicsEnv {
        match side {
            Side::A => self.a,
            Side::B => self.b,
        }
    }

    /// Name of the set being built.
    pub open spec fn draw_side(&self) -> Side {
        draw_side_of(self.swapped())
    }

    /// Name of the set being shown.
    pub open spec fn display_side(&self) -> Side {
        display_side_of(self.swapped())
    }

    /// The set being built.
    pub open spec fn draw(&self) -> GraphicsEnv {
        self.set(self.draw_side())
    }

    /// The set being shown.
    pub open spec fn display(&self) -> GraphicsEnv {
        self.set(self.display_side())
    }

    /// Two empty sets; `B` is the draw set until the first `swap`.
    pub fn new() -> (state: Self)
        ensures
            !state.swapped(),
            state.set(Side::A)@ == GraphicsEnv::spec_new(),
            state.set(Side::B)@ == GraphicsEnv::spec_new(),
    {
        GraphicsState { a: GraphicsEnv::new(), b: GraphicsEnv::new(), swapped: false }
    }

    /// The flag.
    pub fn is_swapped(&self) -> (swapped: bool)
        ensures
            swapped == self.swapped(),
    {
        self.swapped
    }

    /// Name of the set being built.
    pub fn current_draw_side(&self) -> (side: Side)
        ensures
            side == self.draw_side(),
            side != self.display_side(),
    {
        if self.swapped {
            Side::A
        } else {
            Side::B
        }
    }

    /// Name of the set being shown.
    pub fn current_display_side(&self) -> (side: Side)
        ensures
            side == self.display_side(),
            side != self.draw_side(),
    {
        if self.swapped {
            Side::B
        } else {
            Side::A
        }
    }

    /// Read access to the set of the given name.
    pub fn env(&self, side: Side) -> (env: &GraphicsEnv)
        ensures
            *env == self.set(side),
    {
        match side {
            Side::A => &self.a,
            Side::B => &self.b,
        }
    }

    /// Exchanges the roles: the set that was built is now shown, the set that
    /// was shown is now built.
    pub fn flip(&mut self)
        ensures
            final(self).swapped() == !old(self).swapped(),
            final(self).set(Side::A) == old(self).set(Side::A),
            final(self).set(Side::B) == old(self).set(Side::B),
            final(self).display() == old(self).draw(),
            final(self).draw() == old(self).display(),
    {
        self.swapped = !self.swapped;
    }

    /// Exchanges the roles and hands out the two sets, the display set first.
    /// What was built before the call is what is shown after it. The two
    /// handles never reach the same storage: one is `A`, the other `B`.
    pub fn swap(&mut self) -> (r: (&mut GraphicsEnv, &mut GraphicsEnv))
        ensures
            final(self).swapped() == !old(self).swapped(),
            final(self).display_side() == old(self).draw_side(),
            final(self).draw_side() == old(self).display_side(),
            final(self).draw_side() != final(self).display_side(),
            *r.0 == old(self).draw(),
            *r.1 == old(self).display(),
            final(self).display() == *final(r.0),
            final(self).draw() == *final(r.1),
    {
        self.flip();
        get_disp_and_draw(self)
    }
}

/// Two empty buffer sets, none swapped yet.
pub fn init_graphics() -> (state: GraphicsState)
    ensures
        !state.swapped(),
        state.set(Side::A)@ == GraphicsEnv::spec_new(),
        state.set(Side::B)@ == GraphicsEnv::spec_new(),
{
    GraphicsState::new()
}

/// Hands out the display set and the draw set, in that order, as the flag
/// names them. The two never share storage: one is `A`, the other `B`.
pub fn get_disp_and_draw(graphics: &mut GraphicsState) -> (r: (
    &mut GraphicsEnv,
    &mut GraphicsEnv,
))
    ensures
        *r.0 == old(graphics).display(),
        *r.1 == old(graphics).draw(),
        final(graphics).swapped() == old(graphics).swapped(),
        final(graphics).display() == *final(r.0),
        final(graphics).draw() == *final(r.1),
{
    if graphics.swapped {
        (&mut graphics.b, &mut graphics.a)
    } else {
        (&mut graphics.a, &mut graphics.b)
    }
}

/// The roles alternate with every swap and never coincide: what one swap
/// builds the next one shows. Counting from a fresh state, the odd swaps
/// build `A` and show `B`, the even ones build `B` and show `A`.
pub proof fn lemma_roles_alternate(swapped: bool, swaps: nat)
    ensures
        swapped_after(swapped, swaps + 1) == !swapped_after(swapped, swaps),
        draw_side_of(swapped_after(swapped, swaps + 1)) == display_side_of(
            swapped_after(swapped, swaps),
        ),
        display_side_of(swapped_after(swapped, swaps + 1)) == draw_side_of(
            swapped_after(swapped, swaps),
        ),
        draw_side_of(swapped_after(swapped, swaps)) != display_side_of(
            swapped_after(swapped, swaps),
        ),
        swapped_after(false, swaps) == (swaps % 2 == 1),
        draw_side_of(swapped_after(false, swaps)) == (if swaps % 2 == 1 {
            Side::A
        } else {
            Side::B
        }),
    decreases swaps,
{
    if swaps > 0 {
        lemma_roles_alternate(false, (swaps - 1) as nat);
    }
}

} // verus!
