//! What holds of whole sequences of requests made to an arena.

use crate::arena::{align_up, fits, is_multiple, lemma_align_up, regions_wf, ArenaView};
use vstd::prelude::*;

verus! {

/// Where the cursor would stand after the requests `lens` in an arena without
/// a bound: every packet aligned to its length, one after the other.
pub open spec fn packed_end(cursor: nat, lens: Seq<usize>) -> nat
    decreases lens.len(),
{
    if lens.len() == 0 {
        cursor
    } else {
        let before = packed_end(cursor, lens.drop_last());
        (align_up(before as int, lens.last() as int) + lens.last()) as nat
    }
}

/// No request asks for zero bytes.
pub open spec fn all_positive(lens: Seq<usize>) -> bool {
    forall|k: int| 0 <= k < lens.len() ==> #[trigger] lens[k] > 0
}

/// Where no request asks for zero bytes, none of the first `k` does.
proof fn lemma_prefix_all_positive(lens: Seq<usize>, k: int)
    requires
        all_positive(lens),
        0 <= k <= lens.len(),
    ensures
        all_positive(lens.take(k)),
{
    let prefix = lens.take(k);
    assert forall|i: int| 0 <= i < prefix.len() implies #[trigger] prefix[i] > 0 by {
        assert(prefix[i] == lens[i]);
    }
}

/// Every further request moves the unbounded packing forward.
pub proof fn lemma_packed_end_grows(cursor: nat, lens: Seq<usize>, k: int)
    requires
        all_positive(lens),
        0 <= k <= lens.len(),
    ensures
        cursor <= packed_end(cursor, lens.take(k)) <= packed_end(cursor, lens),
    decreases lens.len() - k,
{
    if k == lens.len() {
        assert(lens.take(k) =~= lens);
        lemma_cursor_below_packed_end(cursor, lens);
    } else {
        lemma_packed_end_grows(cursor, lens, k + 1);
        let shorter = lens.take(k);
        let longer = lens.take(k + 1);
        assert(longer.drop_last() =~= shorter);
        assert(longer.last() == lens[k]);
        lemma_align_up(packed_end(cursor, shorter) as int, lens[k] as int);
        lemma_prefix_all_positive(lens, k);
        lemma_cursor_below_packed_end(cursor, shorter);
    }
}

proof fn lemma_cursor_below_packed_end(cursor: nat, lens: Seq<usize>)
    requires
        all_positive(lens),
    ensures
        cursor <= packed_end(cursor, lens),
    decreases lens.len(),
{
    if lens.len() > 0 {
        let shorter = lens.drop_last();
        lemma_prefix_all_positive(lens, lens.len() - 1);
        lemma_cursor_below_packed_end(cursor, shorter);
        lemma_align_up(packed_end(cursor, shorter) as int, lens.last() as int);
    }
}

/// A request, whether it fits or not, keeps what `regions_wf` asks and never
/// moves the cursor back.
pub proof fn lemma_allocate_keeps_regions(v: ArenaView, len: usize, cap: usize)
    requires
        regions_wf(v.packets, v.cursor, cap as nat),
        len > 0,
    ensures
        regions_wf(v.allocate(len, cap).packets, v.allocate(len, cap).cursor, cap as nat),
        v.cursor <= v.allocate(len, cap).cursor,
{
    lemma_align_up(v.cursor as int, len as int);
}

/// While the unbounded packing stays inside the capacity, no request fails:
/// each adds one packet of the length asked for, at a multiple of that
/// length, and the regions stay apart from one another and inside the
/// capacity.
pub proof fn lemma_requests_within_capacity_succeed(v: ArenaView, lens: Seq<usize>, cap: usize)
    requires
        regions_wf(v.packets, v.cursor, cap as nat),
        all_positive(lens),
        packed_end(v.cursor, lens) <= cap,
    ensures
        v.allocate_all(lens, cap).cursor == packed_end(v.cursor, lens),
        v.allocate_all(lens, cap).packets.len() == v.packets.len() + lens.len(),
        v.allocate_all(lens, cap).packets.take(v.packets.len() as int) == v.packets,
        forall|k: int|
            0 <= k < lens.len() ==> {
                let p = #[trigger] v.allocate_all(lens, cap).packets[v.packets.len() + k];
                &&& p.len == lens[k]
                &&& is_multiple(p.offset as int, lens[k] as int)
                &&& v.cursor <= p.offset
                &&& p.offset + p.len <= cap
            },
        forall|i: int, j: int|
            0 <= i < j < v.packets.len() + lens.len() ==> (#[trigger] v.allocate_all(
                lens,
                cap,
            ).packets[i]).spec_end() <= (#[trigger] v.allocate_all(lens, cap).packets[j]).offset,
        regions_wf(
            v.allocate_all(lens, cap).packets,
            v.allocate_all(lens, cap).cursor,
            cap as nat,
        ),
    decreases lens.len(),
{
    if lens.len() == 0 {
        assert(v.packets.take(v.packets.len() as int) =~= v.packets);
    } else {
        let shorter = lens.drop_last();
        let last = lens.last();
        assert(shorter =~= lens.take(lens.len() - 1));
        lemma_prefix_all_positive(lens, lens.len() - 1);
        lemma_packed_end_grows(v.cursor, lens, lens.len() - 1);
        lemma_requests_within_capacity_succeed(v, shorter, cap);
        let before = v.allocate_all(shorter, cap);
        let after = v.allocate_all(lens, cap);
        assert(after == before.allocate(last, cap));
        lemma_align_up(before.cursor as int, last as int);
        assert(fits(before.cursor as int, last as int, cap as int));
        lemma_allocate_keeps_regions(before, last, cap);
        assert(after.packets.take(v.packets.len() as int) =~= v.packets) by {
            assert(before.packets.take(v.packets.len() as int) == v.packets);
            assert forall|i: int| 0 <= i < v.packets.len() implies after.packets[i]
                == v.packets[i] by {
                assert(before.packets.take(v.packets.len() as int)[i] == before.packets[i]);
            }
        }
        assert forall|k: int| 0 <= k < lens.len() implies ({
            let p = #[trigger] after.packets[v.packets.len() + k];
            &&& p.len == lens[k]
            &&& is_multiple(p.offset as int, lens[k] as int)
            &&& v.cursor <= p.offset
            &&& p.offset + p.len <= cap
        }) by {
            if k < shorter.len() {
                assert(after.packets[v.packets.len() + k] == before.packets[v.packets.len() + k]);
                assert(shorter[k] == lens[k]);
            }
        }
    }
}

/// The request that first passes the capacity fails and leaves the arena as
/// it was, cursor included; every request before it succeeded, and a later
/// request that fits at that cursor succeeds.
pub proof fn lemma_first_failure_changes_nothing(
    v: ArenaView,
    lens: Seq<usize>,
    cap: usize,
    k: int,
    later: usize,
)
    requires
        regions_wf(v.packets, v.cursor, cap as nat),
        all_positive(lens),
        0 <= k < lens.len(),
        packed_end(v.cursor, lens.take(k)) <= cap,
        packed_end(v.cursor, lens.take(k + 1)) > cap,
        later > 0,
    ensures
        v.allocate_all(lens.take(k), cap).packets.len() == v.packets.len() + k,
        v.allocate_all(lens.take(k), cap).offer(lens[k], cap) is None,
        v.allocate_all(lens.take(k + 1), cap) == v.allocate_all(lens.take(k), cap),
        fits(v.allocate_all(lens.take(k), cap).cursor as int, later as int, cap as int)
            ==> v.allocate_all(lens.take(k + 1).push(later), cap).packets.len()
            == v.packets.len() + k + 1,
{
    let head = lens.take(k);
    let upto = lens.take(k + 1);
    lemma_prefix_all_positive(lens, k);
    lemma_requests_within_capacity_succeed(v, head, cap);
    assert(upto.drop_last() =~= head);
    assert(upto.last() == lens[k]);
    assert(v.allocate_all(upto, cap) == v.allocate_all(head, cap).allocate(lens[k], cap));
    let more = upto.push(later);
    assert(more.drop_last() =~= upto);
    assert(more.last() == later);
    assert(v.allocate_all(more, cap) == v.allocate_all(upto, cap).allocate(later, cap));
}

/// After `reset` the arena answers every sequence of requests as an arena
/// that was never used, and a second `reset` changes nothing.
pub proof fn lemma_reset_is_fresh(v: ArenaView, lens: Seq<usize>, cap: usize)
    ensures
        v.reset().allocate_all(lens, cap) == ArenaView::empty().allocate_all(lens, cap),
        v.reset().reset() == v.reset(),
{
}

} // verus!
