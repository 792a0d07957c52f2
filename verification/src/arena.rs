//! The graphics buffer: a fixed-capacity bump arena that packets are carved
//! from.
//!
//! Every region starts at the next multiple of its own byte length and is
//! never freed on its own; `reset` gives the whole capacity back at once.
//! The arena decides where each packet lies and keeps what was put there:
//! for every carved region its offset, its length, its link field and its
//! payload. A carved packet is named by a `PacketRef`, never by an address,
//! so no access can leave its region.

use crate::packet::{Command, Link, Packet, PacketRef};
use vstd::prelude::*;

verus! {

/// The arena could not hold one more packet.
#[derive(Clone, Copy, Debug, PartialEq, Eq, Structural)]
pub struct GraphicsBufferFullError {
    /// Cursor at the time of the request.
    pub index: usize,
    /// Bytes that were asked for.
    pub packet_len: usize,
    /// Capacity of the arena.
    pub max_len: usize,
}

/// The least multiple of `len` that is not below `index`.
pub open spec fn align_up(index: int, len: int) -> int
    recommends
        0 <= index,
        0 < len,
{
    if index % len == 0 {
        index
    } else {
        index + (len - index % len)
    }
}

/// Whether `m` is a multiple of `len`.
pub open spec fn is_multiple(m: int, len: int) -> bool {
    m % len == 0
}

/// Whether a packet of `len` bytes, aligned to its length, still ends inside
/// a capacity of `cap` bytes when the cursor stands at `index`.
pub open spec fn fits(index: int, len: int, cap: int) -> bool {
    align_up(index, len) + len <= cap
}

/// `align_up` yields a multiple of `len`, less than `len` bytes past `index`,
/// and no multiple of `len` lies between the two.
pub proof fn lemma_align_up(index: int, len: int)
    requires
        0 <= index,
        0 < len,
    ensures
        is_multiple(align_up(index, len), len),
        index <= align_up(index, len) < index + len,
        forall|m: int| index <= m && #[trigger] is_multiple(m, len) ==> align_up(index, len) <= m,
{
    let a = align_up(index, len);
    let q = index / len;
    let r = index % len;
    vstd::arithmetic::div_mod::lemma_fundamental_div_mod(index, len);
    vstd::arithmetic::div_mod::lemma_mod_bound(index, len);
    if r != 0 {
        assert(a == len * (q + 1)) by (nonlinear_arith)
            requires
                a == index + (len - r),
                index == len * q + r,
        ;
        vstd::arithmetic::div_mod::lemma_mod_multiples_basic(q + 1, len);
        assert(len * (q + 1) == (q + 1) * len) by (nonlinear_arith);
    }
    assert forall|m: int| index <= m && #[trigger] is_multiple(m, len) implies a <= m by {
        if m < a {
            let qm = m / len;
            let qa = a / len;
            vstd::arithmetic::div_mod::lemma_fundamental_div_mod(m, len);
            vstd::arithmetic::div_mod::lemma_fundamental_div_mod(a, len);
            assert(false) by (nonlinear_arith)
                requires
                    m == len * qm,
                    a == len * qa,
                    m < a,
                    a < m + len,
                    0 < len,
            ;
        }
    }
}

/// What the regions of an arena have to satisfy: each lies below the cursor
/// and starts at a multiple of its length, they follow one another without
/// overlap, and an assigned payload fills its region exactly.
pub open spec fn regions_wf(packets: Seq<Packet>, cursor: nat, cap: nat) -> bool {
    &&& cursor <= cap
    &&& forall|k: int|
        0 <= k < packets.len() ==> {
            &&& (#[trigger] packets[k]).len > 0
            &&& packets[k].offset as int % packets[k].len as int == 0
            &&& packets[k].spec_end() <= cursor
            &&& (packets[k].contents matches Some(c) ==> c.spec_packet_len() == packets[k].len)
        }
    &&& forall|i: int, j: int|
        0 <= i < j < packets.len() ==> (#[trigger] packets[i]).spec_end() <= (
        #[trigger] packets[j]).offset
}

/// The arena as a value: where the cursor stands and what was carved so far.
pub struct ArenaView {
    pub cursor: nat,
    pub packets: Seq<Packet>,
}

impl ArenaView {
    /// An arena nothing was carved from.
    pub open spec fn empty() -> ArenaView {
        ArenaView { cursor: 0, packets: Seq::empty() }
    }

    /// The link field of every carved packet, by slot.
    pub open spec fn links(self) -> Seq<Link> {
        Seq::new(self.packets.len(), |k: int| self.packets[k].next)
    }

    /// Where a request for `len` bytes lands in an arena of `cap` bytes, if
    /// it fits.
    pub open spec fn offer(self, len: usize, cap: usize) -> Option<usize> {
        if fits(self.cursor as int, len as int, cap as int) {
            Some(align_up(self.cursor as int, len as int) as usize)
        } else {
            None
        }
    }

    /// The arena after a request for `len` bytes: one more packet when the
    /// request fits, the same arena when it does not.
    pub open spec fn allocate(self, len: usize, cap: usize) -> ArenaView {
        match self.offer(len, cap) {
            Some(at) => ArenaView {
                cursor: (at + len) as nat,
                packets: self.packets.push(Packet::carved(at, len)),
            },
            None => self,
        }
    }

    /// The arena after `reset`.
    pub open spec fn reset(self) -> ArenaView {
        ArenaView::empty()
    }

    /// The arena after the requests `lens`, made in order.
    pub open spec fn allocate_all(self, lens: Seq<usize>, cap: usize) -> ArenaView
        decreases lens.len(),
    {
        if lens.len() == 0 {
            self
        } else {
            self.allocate_all(lens.drop_last(), cap).allocate(lens.last(), cap)
        }
    }
}

/// A bump arena of `LEN` bytes.
#[derive(Debug, PartialEq, Eq)]
pub struct GraphicsBuffer<const LEN: usize> {
    packets: Vec<Packet>,
    index: usize,
}

impl<const LEN: usize> Clone for GraphicsBuffer<LEN> {
    fn clone(&self) -> (copy: Self)
        ensures
            copy@ == self@,
    {
        let packets = self.packets.clone();
        assert(packets@ =~= self.packets@);
        GraphicsBuffer { packets, index: self.index }
    }
}

impl<const LEN: usize> View for GraphicsBuffer<LEN> {
    type V = ArenaView;

    closed spec fn view(&self) -> ArenaView {
        ArenaView { cursor: self.index as nat, packets: self.packets@ }
    }
}

impl<const LEN: usize> GraphicsBuffer<LEN> {
    /// The link field of every carved packet, by slot.
    pub open spec fn links(&self) -> Seq<Link> {
        self@.links()
    }

    /// Whether `p` names a packet carved from this arena.
    pub open spec fn holds(&self, p: PacketRef) -> bool {
        p.slot < self@.packets.len()
    }

    /// The regions are laid out as `regions_wf` asks.
    pub open spec fn wf(&self) -> bool {
        regions_wf(self@.packets, self@.cursor, LEN as nat)
    }

    /// An empty arena.
    pub fn new() -> (buffer: Self)
        ensures
            buffer@ == ArenaView::empty(),
            buffer.wf(),
    {
        GraphicsBuffer { packets: Vec::new(), index: 0 }
    }

    /// The cursor: the first byte that no region reaches.
    pub fn index(&self) -> (index: usize)
        ensures
            index == self@.cursor,
    {
        self.index
    }

    /// Capacity in bytes.
    pub fn capacity(&self) -> (cap: usize)
        ensures
            cap == LEN,
    {
        LEN
    }

    /// Number of packets carved since the arena was last empty.
    pub fn len(&self) -> (n: usize)
        ensures
            n == self@.packets.len(),
    {
        self.packets.len()
    }

    /// The packet in slot `p`, if that slot was carved.
    pub fn packet(&self, p: PacketRef) -> (packet: Option<Packet>)
        ensures
            packet == (if self.holds(p) {
                Some(self@.packets[p.slot as int])
            } else {
                None
            }),
    {
        if p.slot < self.packets.len() {
            Some(self.packets[p.slot])
        } else {
            None
        }
    }

    /// The link field of the carved packet `p`.
    pub fn link(&self, p: PacketRef) -> (next: Link)
        requires
            self.holds(p),
        ensures
            next == self.links()[p.slot as int],
    {
        self.packets[p.slot].next
    }

    /// Carves a packet of `packet_len` bytes at the next multiple of
    /// `packet_len`. Fails, changing nothing, when the packet would end past
    /// the capacity.
    pub fn new_primitive(&mut self, packet_len: usize) -> (r: Result<
        PacketRef,
        GraphicsBufferFullError,
    >)
        requires
            packet_len > 0,
        ensures
            final(self)@ == old(self)@.allocate(packet_len, LEN),
            r is Ok <==> fits(old(self)@.cursor as int, packet_len as int, LEN as int),
            r matches Ok(p) ==> p.slot == old(self)@.packets.len(),
            r matches Err(e) ==> e == (GraphicsBufferFullError {
                index: old(self)@.cursor as usize,
                packet_len,
                max_len: LEN,
            }),
            old(self).wf() ==> final(self).wf(),
    {
        let full = GraphicsBufferFullError { index: self.index, packet_len, max_len: LEN };
        let rem: usize = self.index % packet_len;
        let pad: usize = if rem == 0 {
            0
        } else {
            packet_len - rem
        };
        let index_aligned: usize = match self.index.checked_add(pad) {
            Some(at) => at,
            None => {
                return Err(full);
            },
        };
        let end: usize = match index_aligned.checked_add(packet_len) {
            Some(end) => end,
            None => {
                return Err(full);
            },
        };
        if LEN < end {
            return Err(full);
        }
        Ok(self.new_primitive_unchecked(packet_len))
    }

    /// Carves as `new_primitive` does, without testing the capacity: the
    /// caller has to know that the packet fits.
    pub fn new_primitive_unchecked(&mut self, packet_len: usize) -> (p: PacketRef)
        requires
            packet_len > 0,
            fits(old(self)@.cursor as int, packet_len as int, LEN as int),
        ensures
            final(self)@ == old(self)@.allocate(packet_len, LEN),
            p.slot == old(self)@.packets.len(),
            old(self).wf() ==> final(self).wf(),
    {
        proof {
            lemma_align_up(self.index as int, packet_len as int);
        }
        let at: usize = new_prim(LEN, &mut self.index, packet_len);
        let slot: usize = self.packets.len();
        self.packets.push(
            Packet { offset: at, len: packet_len, next: Link::Terminator, contents: None },
        );
        PacketRef { slot }
    }

    /// Empties the arena: the next packet is carved at offset zero.
    pub fn reset(&mut self)
        ensures
            final(self)@ == old(self)@.reset(),
            final(self).wf(),
    {
        self.packets.clear();
        self.index = 0;
    }

    /// Assigns the payload of a carved packet. The command has to fill the
    /// region exactly.
    pub fn set_contents(&mut self, p: PacketRef, contents: Command)
        requires
            old(self).holds(p),
            contents.spec_packet_len() == old(self)@.packets[p.slot as int].len,
        ensures
            final(self)@ == (ArenaView {
                cursor: old(self)@.cursor,
                packets: old(self)@.packets.update(
                    p.slot as int,
                    Packet { contents: Some(contents), ..old(self)@.packets[p.slot as int] },
                ),
            }),
            old(self).wf() ==> final(self).wf(),
    {
        self.packets[p.slot].contents = Some(contents);
        assert(self.packets@ =~= old(self)@.packets.update(
            p.slot as int,
            Packet { contents: Some(contents), ..old(self)@.packets[p.slot as int] },
        ));
    }

    /// Overwrites the link field of a carved packet.
    pub fn set_link(&mut self, p: PacketRef, next: Link)
        requires
            old(self).holds(p),
        ensures
            final(self)@ == (ArenaView {
                cursor: old(self)@.cursor,
                packets: old(self)@.packets.update(
                    p.slot as int,
                    Packet { next, ..old(self)@.packets[p.slot as int] },
                ),
            }),
            final(self).links() == old(self).links().update(p.slot as int, next),
            old(self).wf() ==> final(self).wf(),
    {
        self.packets[p.slot].next = next;
        assert(self.packets@ =~= old(self)@.packets.update(
            p.slot as int,
            Packet { next, ..old(self)@.packets[p.slot as int] },
        ));
        assert(self.links() =~= old(self).links().update(p.slot as int, next));
    }
}

/// Carves `packet_len` bytes from a raw region of `buf_len` bytes whose cursor
/// is `index`. The region starts at the next multiple of `packet_len`, as every
/// region does. The capacity is not tested: the caller has to know that the
/// packet fits. Returns the offset of the region and moves the cursor to its
/// end.
pub fn new_prim(buf_len: usize, index: &mut usize, packet_len: usize) -> (offset: usize)
    requires
        packet_len > 0,
        fits(*old(index) as int, packet_len as int, buf_len as int),
    ensures
        offset == align_up(*old(index) as int, packet_len as int),
        is_multiple(offset as int, packet_len as int),
        *old(index) <= offset,
        *final(index) == offset + packet_len,
        *final(index) <= buf_len,
{
    proof {
        lemma_align_up(*index as int, packet_len as int);
    }
    let rem: usize = *index % packet_len;
    let offset: usize = if rem == 0 {
        *index
    } else {
        *index + (packet_len - rem)
    };
    *index = offset + packet_len;
    offset
}

} // verus!
