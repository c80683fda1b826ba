use retina::client::reorder::{extend_seq, Delivery, ReorderBuffer};

fn seqs<T>(out: &[Delivery<T>]) -> Vec<(i64, u16)> {
    out.iter().map(|d| (d.seq, d.loss)).collect()
}

#[test]
fn out_of_order_5_6_4_7_is_delivered_4_5_6_7() {
    let mut b: ReorderBuffer<&'static str> = ReorderBuffer::new(4, 8, 100);
    assert!(b.push(0, 5, "five").is_empty());
    assert!(b.push(1, 6, "six").is_empty());
    assert_eq!(b.pending_len(), 2);
    assert_eq!(b.deadline(), Some(100));
    let out = b.push(2, 4, "four");
    assert_eq!(seqs(&out), vec![(4, 0), (5, 0), (6, 0)]);
    assert_eq!(out[0].item, "four");
    assert_eq!(out[1].item, "five");
    assert_eq!(out[2].item, "six");
    assert_eq!(b.deadline(), None);
    let out = b.push(3, 7, "seven");
    assert_eq!(seqs(&out), vec![(7, 0)]);
    assert_eq!(b.next_expected(), 8);
    assert_eq!(b.pending_len(), 0);
}

#[test]
fn every_order_of_four_packets_comes_out_in_order() {
    let mut orders = Vec::new();
    for a in 0u16..4 {
        for b in 0u16..4 {
            for c in 0u16..4 {
                for d in 0u16..4 {
                    let mut seen = [false; 4];
                    for x in [a, b, c, d] {
                        seen[x as usize] = true;
                    }
                    if seen.iter().all(|&s| s) {
                        orders.push([a, b, c, d]);
                    }
                }
            }
        }
    }
    assert_eq!(orders.len(), 24);
    for first in [0u16, 100, 65_534] {
        for order in &orders {
            let mut buffer: ReorderBuffer<u16> = ReorderBuffer::new(first, 4, 100);
            let mut out = Vec::new();
            for (at, &offset) in order.iter().enumerate() {
                out.extend(buffer.push(at as u64, first.wrapping_add(offset), offset));
            }
            let expected: Vec<(i64, u16, u16)> =
                (0..4).map(|k| (i64::from(first) + k, 0, k as u16)).collect();
            let got: Vec<(i64, u16, u16)> = out.iter().map(|d| (d.seq, d.loss, d.item)).collect();
            assert_eq!(got, expected, "first {} order {:?}", first, order);
            assert_eq!(buffer.pending_len(), 0);
            assert_eq!(buffer.next_expected(), i64::from(first) + 4);
        }
    }
}

#[test]
fn gap_is_reported_once_when_the_wait_times_out() {
    let mut b: ReorderBuffer<u8> = ReorderBuffer::new(10, 8, 100);
    assert_eq!(seqs(&b.push(0, 10, 0)), vec![(10, 0)]);
    assert_eq!(seqs(&b.push(1, 11, 0)), vec![(11, 0)]);
    // 12, 13 and 14 never arrive.
    assert!(b.push(20, 15, 0).is_empty());
    assert!(b.push(21, 16, 0).is_empty());
    assert_eq!(b.deadline(), Some(120));
    assert!(b.poll(119).is_empty());
    let out = b.poll(120);
    assert_eq!(seqs(&out), vec![(15, 3), (16, 0)]);
    assert_eq!(b.deadline(), None);
    assert_eq!(seqs(&b.push(130, 17, 0)), vec![(17, 0)]);
    assert_eq!(seqs(&b.push(131, 18, 0)), vec![(18, 0)]);
}

#[test]
fn gap_is_reported_once_when_the_buffer_overflows() {
    let mut b: ReorderBuffer<u8> = ReorderBuffer::new(0, 2, 100);
    assert_eq!(seqs(&b.push(0, 0, 0)), vec![(0, 0)]);
    assert!(b.push(1, 5, 0).is_empty());
    assert!(b.push(2, 6, 0).is_empty());
    let out = b.push(3, 7, 0);
    assert_eq!(seqs(&out), vec![(5, 4), (6, 0), (7, 0)]);
    assert_eq!(b.pending_len(), 0);
    assert_eq!(seqs(&b.push(4, 8, 0)), vec![(8, 0)]);
    assert!(b.flush().is_empty());
}

#[test]
fn overflow_hands_on_in_order_with_every_gap() {
    let mut b: ReorderBuffer<u8> = ReorderBuffer::new(1, 3, 100);
    assert_eq!(seqs(&b.push(0, 1, 0)), vec![(1, 0)]);
    assert!(b.push(0, 9, 0).is_empty());
    assert!(b.push(0, 4, 0).is_empty());
    assert!(b.push(0, 6, 0).is_empty());
    let out = b.push(0, 5, 0);
    assert_eq!(seqs(&out), vec![(4, 2), (5, 0), (6, 0), (9, 2)]);
    assert_eq!(b.next_expected(), 10);
}

#[test]
fn no_room_for_waiting_means_no_reordering() {
    let mut b: ReorderBuffer<u8> = ReorderBuffer::new(0, 0, 100);
    assert_eq!(seqs(&b.push(0, 0, 0)), vec![(0, 0)]);
    assert_eq!(seqs(&b.push(0, 3, 0)), vec![(3, 2)]);
    assert!(b.push(0, 2, 0).is_empty());
    assert_eq!(seqs(&b.push(0, 4, 0)), vec![(4, 0)]);
}

#[test]
fn first_packet_ahead_of_the_seed_carries_no_loss() {
    let mut b: ReorderBuffer<u8> = ReorderBuffer::new(17_000, 8, 100);
    assert!(b.push(0, 17_001, 0).is_empty());
    assert!(b.poll(99).is_empty());
    assert_eq!(seqs(&b.poll(100)), vec![(17_001, 0)]);
    assert_eq!(seqs(&b.push(101, 17_002, 0)), vec![(17_002, 0)]);
    assert_eq!(seqs(&b.push(102, 17_004, 0)), vec![]);
    assert_eq!(seqs(&b.flush()), vec![(17_004, 1)]);
}

#[test]
fn duplicates_and_late_packets_are_dropped() {
    let mut b: ReorderBuffer<u8> = ReorderBuffer::new(100, 8, 100);
    assert_eq!(seqs(&b.push(0, 100, 1)), vec![(100, 0)]);
    assert!(b.push(0, 100, 2).is_empty());
    assert!(b.push(0, 99, 3).is_empty());
    assert!(b.push(0, 102, 4).is_empty());
    assert!(b.push(0, 102, 5).is_empty());
    assert_eq!(b.pending_len(), 1);
    let out = b.push(0, 101, 6);
    assert_eq!(seqs(&out), vec![(101, 0), (102, 0)]);
    assert_eq!(out[1].item, 4);
    // An ancient duplicate, far behind the window.
    assert!(b.push(0, 50, 7).is_empty());
    assert_eq!(b.next_expected(), 103);
}

#[test]
fn sequence_numbers_are_extended_across_the_wrap() {
    let mut b: ReorderBuffer<u8> = ReorderBuffer::new(65_534, 8, 100);
    assert_eq!(seqs(&b.push(0, 65_534, 0)), vec![(65_534, 0)]);
    assert!(b.push(0, 0, 0).is_empty());
    assert_eq!(seqs(&b.push(0, 65_535, 0)), vec![(65_535, 0), (65_536, 0)]);
    assert_eq!(seqs(&b.push(0, 1, 0)), vec![(65_537, 0)]);
    assert_eq!(b.next_expected(), 65_538);
}

#[test]
fn extend_seq_picks_the_closest_number() {
    assert_eq!(extend_seq(17_000, 17_001), 17_001);
    assert_eq!(extend_seq(17_000, 16_999), 16_999);
    assert_eq!(extend_seq(65_536, 0), 65_536);
    assert_eq!(extend_seq(65_536, 65_535), 65_535);
    assert_eq!(extend_seq(65_530, 3), 65_539);
    assert_eq!(extend_seq(5, 65_000), -536);
    assert_eq!(extend_seq(200_000, 3_392), 200_000);
    // Half the range away: the earlier of the two candidates.
    assert_eq!(extend_seq(100_000, ((100_000 + 32_768) % 65_536) as u16), 100_000 - 32_768);
    assert_eq!(extend_seq(100_000, ((100_000 + 32_767) % 65_536) as u16), 100_000 + 32_767);
    assert_eq!(extend_seq(0, 32_768), -32_768);
    assert_eq!(extend_seq(0, 32_767), 32_767);
}

#[test]
fn loss_saturates_at_65535() {
    // Waiting packets are never more than half the range ahead, so a single
    // gap stays far below the limit.
    let mut b: ReorderBuffer<u8> = ReorderBuffer::new(0, 1, 100);
    assert_eq!(seqs(&b.push(0, 0, 0)), vec![(0, 0)]);
    assert!(b.push(0, 32_767, 0).is_empty());
    assert_eq!(seqs(&b.flush()), vec![(32_767, 32_766)]);
}

#[test]
fn poll_without_waiting_packets_does_nothing() {
    let mut b: ReorderBuffer<u8> = ReorderBuffer::new(0, 8, 0);
    assert!(b.poll(u64::MAX).is_empty());
    assert!(b.has_room());
    assert!(b.push(7, 1, 0).is_empty());
    assert_eq!(b.deadline(), Some(7));
    assert_eq!(seqs(&b.poll(7)), vec![(1, 0)]);
}

#[test]
fn deadline_that_does_not_fit_is_none() {
    let mut b: ReorderBuffer<u8> = ReorderBuffer::new(0, 8, u64::MAX);
    assert!(b.push(1, 1, 0).is_empty());
    assert_eq!(b.deadline(), None);
    assert!(b.poll(u64::MAX).is_empty());
}
