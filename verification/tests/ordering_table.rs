use display_list::arena::GraphicsBuffer;
use display_list::ordering_table::OrderingTable;
use display_list::packet::{Link, PacketRef};

#[test]
fn new_table_has_empty_buckets() {
    let table = OrderingTable::<4>::new();
    let buffer = GraphicsBuffer::<64>::new();
    assert_eq!(table.len(), 4);
    for bucket in 0..4 {
        assert_eq!(table.head_link(bucket), Link::Terminator);
        assert_eq!(table.chain(&buffer, bucket), Some(vec![]));
    }
}

#[test]
fn two_buckets_keep_their_own_chains() {
    let mut table = OrderingTable::<2>::new();
    let mut buffer = GraphicsBuffer::<64>::new();
    let x = buffer.new_primitive(16).expect("fits");
    let y = buffer.new_primitive(16).expect("fits");
    let z = buffer.new_primitive(16).expect("fits");
    table.insert(0, &mut buffer, x);
    table.insert(0, &mut buffer, y);
    assert_eq!(table.chain(&buffer, 0), Some(vec![y, x]));
    table.insert(1, &mut buffer, z);
    assert_eq!(table.chain(&buffer, 1), Some(vec![z]));
    assert_eq!(table.chain(&buffer, 0), Some(vec![y, x]));
}

#[test]
fn insert_splices_in_front() {
    let mut table = OrderingTable::<2>::new();
    let mut buffer = GraphicsBuffer::<64>::new();
    let x = buffer.new_primitive(8).expect("fits");
    let y = buffer.new_primitive(8).expect("fits");
    table.insert(1, &mut buffer, x);
    assert_eq!(table.head_link(1), Link::Packet(x));
    assert_eq!(buffer.link(x), Link::Terminator);
    table.insert(1, &mut buffer, y);
    assert_eq!(table.head_link(1), Link::Packet(y));
    assert_eq!(buffer.link(y), Link::Packet(x));
    assert_eq!(buffer.link(x), Link::Terminator);
    assert_eq!(table.head_link(0), Link::Terminator);
}

#[test]
fn insert_leaves_the_regions_alone() {
    let mut table = OrderingTable::<2>::new();
    let mut buffer = GraphicsBuffer::<64>::new();
    let x = buffer.new_primitive(20).expect("fits");
    let y = buffer.new_primitive(8).expect("fits");
    let before_x = buffer.packet(x).expect("carved");
    let before_y = buffer.packet(y).expect("carved");
    table.insert(0, &mut buffer, x);
    table.insert(0, &mut buffer, y);
    let after_x = buffer.packet(x).expect("carved");
    let after_y = buffer.packet(y).expect("carved");
    assert_eq!((after_x.offset, after_x.len), (before_x.offset, before_x.len));
    assert_eq!((after_y.offset, after_y.len), (before_y.offset, before_y.len));
    assert_eq!(buffer.index(), 32);
    assert_eq!(buffer.len(), 2);
}

#[test]
fn many_inserts_read_back_reversed() {
    let mut table = OrderingTable::<3>::new();
    let mut buffer = GraphicsBuffer::<1024>::new();
    let mut inserted: Vec<PacketRef> = Vec::new();
    for _ in 0..20 {
        let p = buffer.new_primitive(16).expect("fits");
        table.insert(2, &mut buffer, p);
        inserted.push(p);
    }
    inserted.reverse();
    assert_eq!(table.chain(&buffer, 2), Some(inserted));
    assert_eq!(table.chain(&buffer, 0), Some(vec![]));
    assert_eq!(table.chain(&buffer, 1), Some(vec![]));
}

#[test]
fn insertion_order_need_not_follow_slots() {
    let mut table = OrderingTable::<1>::new();
    let mut buffer = GraphicsBuffer::<64>::new();
    let a = buffer.new_primitive(8).expect("fits");
    let b = buffer.new_primitive(8).expect("fits");
    let c = buffer.new_primitive(8).expect("fits");
    table.insert(0, &mut buffer, b);
    table.insert(0, &mut buffer, c);
    table.insert(0, &mut buffer, a);
    assert_eq!(table.chain(&buffer, 0), Some(vec![a, c, b]));
}

#[test]
fn reset_bucket_empties_the_chain() {
    let mut table = OrderingTable::<2>::new();
    let mut buffer = GraphicsBuffer::<64>::new();
    let x = buffer.new_primitive(8).expect("fits");
    let y = buffer.new_primitive(8).expect("fits");
    table.insert(0, &mut buffer, x);
    table.insert(1, &mut buffer, y);
    table.reset_bucket(0);
    assert_eq!(table.head_link(0), Link::Terminator);
    assert_eq!(table.chain(&buffer, 0), Some(vec![]));
    assert_eq!(table.chain(&buffer, 1), Some(vec![y]));
}

#[test]
fn reset_bucket_then_insert_starts_over() {
    let mut table = OrderingTable::<1>::new();
    let mut buffer = GraphicsBuffer::<64>::new();
    let x = buffer.new_primitive(8).expect("fits");
    let y = buffer.new_primitive(8).expect("fits");
    table.insert(0, &mut buffer, x);
    table.reset_bucket(0);
    table.insert(0, &mut buffer, y);
    assert_eq!(table.chain(&buffer, 0), Some(vec![y]));
}

#[test]
fn clear_empties_every_bucket() {
    let mut table = OrderingTable::<3>::new();
    let mut buffer = GraphicsBuffer::<64>::new();
    for bucket in 0..3 {
        let p = buffer.new_primitive(8).expect("fits");
        table.insert(bucket, &mut buffer, p);
    }
    table.clear();
    assert_eq!(table, OrderingTable::<3>::new());
    for bucket in 0..3 {
        assert_eq!(table.chain(&buffer, bucket), Some(vec![]));
    }
}

#[test]
fn packet_linked_twice_has_no_chain() {
    let mut table = OrderingTable::<1>::new();
    let mut buffer = GraphicsBuffer::<64>::new();
    let x = buffer.new_primitive(8).expect("fits");
    table.insert(0, &mut buffer, x);
    table.insert(0, &mut buffer, x);
    assert_eq!(buffer.link(x), Link::Packet(x));
    assert_eq!(table.chain(&buffer, 0), None);
    assert_eq!(table.reverse_for_transmission(&buffer), None);
}

#[test]
fn longer_cycle_has_no_chain() {
    let mut table = OrderingTable::<1>::new();
    let mut buffer = GraphicsBuffer::<64>::new();
    let x = buffer.new_primitive(8).expect("fits");
    let y = buffer.new_primitive(8).expect("fits");
    let z = buffer.new_primitive(8).expect("fits");
    table.insert(0, &mut buffer, x);
    table.insert(0, &mut buffer, y);
    table.insert(0, &mut buffer, z);
    buffer.set_link(x, Link::Packet(z));
    assert_eq!(table.chain(&buffer, 0), None);
}

#[test]
fn link_past_the_arena_has_no_chain() {
    let mut table = OrderingTable::<2>::new();
    let mut buffer = GraphicsBuffer::<64>::new();
    let x = buffer.new_primitive(8).expect("fits");
    table.insert(0, &mut buffer, x);
    buffer.reset();
    assert_eq!(table.head_link(0), Link::Packet(x));
    assert_eq!(table.chain(&buffer, 0), None);
    assert_eq!(table.chain(&buffer, 1), Some(vec![]));
}

#[test]
fn chain_may_use_every_packet() {
    let mut table = OrderingTable::<1>::new();
    let mut buffer = GraphicsBuffer::<32>::new();
    let mut all: Vec<PacketRef> = Vec::new();
    for _ in 0..4 {
        let p = buffer.new_primitive(8).expect("fits");
        table.insert(0, &mut buffer, p);
        all.push(p);
    }
    all.reverse();
    assert_eq!(table.chain(&buffer, 0), Some(all));
}

#[test]
fn transmission_runs_from_the_last_bucket_to_the_first() {
    let mut table = OrderingTable::<3>::new();
    let mut buffer = GraphicsBuffer::<128>::new();
    let a = buffer.new_primitive(8).expect("fits");
    let b = buffer.new_primitive(8).expect("fits");
    let c = buffer.new_primitive(8).expect("fits");
    let d = buffer.new_primitive(8).expect("fits");
    let e = buffer.new_primitive(8).expect("fits");
    table.insert(0, &mut buffer, a);
    table.insert(0, &mut buffer, b);
    table.insert(2, &mut buffer, c);
    table.insert(1, &mut buffer, d);
    table.insert(2, &mut buffer, e);
    assert_eq!(table.reverse_for_transmission(&buffer), Some(vec![e, c, d, b, a]));
}

#[test]
fn transmission_of_an_empty_table_is_empty() {
    let table = OrderingTable::<8>::new();
    let buffer = GraphicsBuffer::<64>::new();
    assert_eq!(table.reverse_for_transmission(&buffer), Some(vec![]));
}

#[test]
fn table_without_buckets_transmits_nothing() {
    let table = OrderingTable::<0>::new();
    let buffer = GraphicsBuffer::<64>::new();
    assert_eq!(table.len(), 0);
    assert_eq!(table.reverse_for_transmission(&buffer), Some(vec![]));
}

#[test]
fn transmission_is_the_chains_from_last_to_first() {
    let mut table = OrderingTable::<5>::new();
    let mut buffer = GraphicsBuffer::<4096>::new();
    // A fixed scatter of packets over the buckets.
    for n in 0..60usize {
        let p = buffer.new_primitive(4 + 4 * (n % 5)).expect("fits");
        table.insert((7 * n + 3) % 5, &mut buffer, p);
    }
    let mut expected: Vec<PacketRef> = Vec::new();
    for bucket in (0..5).rev() {
        expected.extend(table.chain(&buffer, bucket).expect("the chain is whole"));
    }
    assert_eq!(expected.len(), 60);
    assert_eq!(table.reverse_for_transmission(&buffer), Some(expected));
}

#[test]
fn copy_of_a_table_reads_the_same() {
    let mut table = OrderingTable::<2>::new();
    let mut buffer = GraphicsBuffer::<64>::new();
    let x = buffer.new_primitive(8).expect("fits");
    table.insert(1, &mut buffer, x);
    let copy = table.clone();
    let buffer_copy = buffer.clone();
    assert_eq!(copy, table);
    assert_eq!(buffer_copy, buffer);
    table.reset_bucket(1);
    assert_eq!(copy.chain(&buffer_copy, 1), Some(vec![x]));
    assert_eq!(table.chain(&buffer, 1), Some(vec![]));
}
