//! Putting the packets of one stream back in order.
//!
//! Packets carry a 16-bit sequence number that wraps around. A
//! [`ReorderBuffer`] extends it to 64 bits, hands packets on in increasing
//! order of that number, holds back the few that arrive ahead of a missing
//! one, and counts as lost what has not arrived when it stops waiting.

use std::collections::VecDeque;
use vstd::prelude::*;

verus! {

/// Half the range of sequence numbers on the wire.
pub const SEQ_HALF_RANGE: i64 = 0x8000;

/// The range of sequence numbers on the wire.
pub const SEQ_RANGE: i64 = 0x1_0000;

/// The extended sequence number up to which a buffer takes packets.
pub const SEQ_LIMIT: i64 = 0x4000_0000_0000_0000;

/// How many packets wait for a missing one, unless the caller says
/// otherwise.
pub const DEFAULT_MAX_REORDER: usize = 8;

/// For how many milliseconds a missing packet is waited for, unless the
/// caller says otherwise.
pub const DEFAULT_REORDER_TIMEOUT_MS: u64 = 100;

/// The most that is ever reported as lost before one packet.
pub const MAX_LOSS: u16 = 0xFFFF;

/// The extended form of the sequence number `wire`: of the numbers that end
/// in the same 16 bits, the one closest to `next_expected`. Of two that are
/// equally close, it is the earlier.
pub open spec fn spec_extend_seq(next_expected: int, wire: int) -> int {
    next_expected + (wire - next_expected + SEQ_HALF_RANGE) % (SEQ_RANGE as int) - SEQ_HALF_RANGE
}

/// The number of lost packets that is reported for `gap` missing sequence
/// numbers.
pub open spec fn spec_loss(gap: int) -> u16 {
    if gap <= 0 {
        0
    } else if gap >= MAX_LOSS {
        MAX_LOSS
    } else {
        gap as u16
    }
}

/// A packet that waits for the ones before it.
pub struct Entry<T> {
    /// The extended sequence number.
    pub seq: i64,
    /// The packet.
    pub item: T,
}

/// A packet that is handed on.
#[derive(Debug)]
pub struct Delivery<T> {
    /// The extended sequence number.
    pub seq: i64,
    /// The number of packets that were lost between the packet handed on
    /// before this one and this one.
    pub loss: u16,
    /// The packet.
    pub item: T,
}

/// A packet as it arrives.
pub struct Arrival<T> {
    /// The time of arrival, in milliseconds on the caller's clock.
    pub now_ms: u64,
    /// The sequence number as in the packet's header.
    pub wire: u16,
    /// The packet.
    pub item: T,
}

/// The state of a [`ReorderBuffer`].
pub struct ReorderModel<T> {
    /// The extended sequence number of the packet that is handed on next
    /// if it arrives.
    pub next_expected: int,
    /// Whether a packet has been handed on yet.
    pub delivered_any: bool,
    /// The packets that wait, in increasing order of sequence number.
    pub pending: Seq<Entry<T>>,
    /// How many packets may wait.
    pub max_reorder: nat,
    /// Since when the packet `next_expected` is waited for, in milliseconds
    /// on the caller's clock, while packets wait.
    pub waiting_since: Option<u64>,
    /// After how many milliseconds of waiting the packets that wait are
    /// handed on without the missing one.
    pub timeout_ms: u64,
}

/// The packets `items` as they are handed on one after the other when none
/// is missing between them: with no loss.
pub open spec fn in_order<T>(items: Seq<Entry<T>>) -> Seq<Delivery<T>> {
    Seq::new(
        items.len(),
        |i: int| Delivery { seq: items[i].seq, loss: 0, item: items[i].item },
    )
}

/// The packets `items` as they are handed on one after the other when the
/// buffer stops waiting: each with the sequence numbers that are missing
/// before it as its loss. The first is measured from `next_expected`, and
/// only if `count_first` holds.
pub open spec fn with_losses<T>(count_first: bool, next_expected: int, items: Seq<Entry<T>>) -> Seq<
    Delivery<T>,
> {
    Seq::new(
        items.len(),
        |i: int|
            Delivery {
                seq: items[i].seq,
                loss: if i == 0 {
                    if count_first {
                        spec_loss(items[0].seq - next_expected)
                    } else {
                        0
                    }
                } else {
                    spec_loss(items[i].seq - items[i - 1].seq - 1)
                },
                item: items[i].item,
            },
    )
}

/// Whether the packets `out` are in strictly increasing order of sequence
/// number, none of them before `low` and all of them before `high`.
pub open spec fn ascending_within<T>(out: Seq<Delivery<T>>, low: int, high: int) -> bool {
    &&& forall|i: int| 0 <= i < out.len() ==> low <= (#[trigger] out[i]).seq < high
    &&& forall|i: int, j: int|
        0 <= i < j < out.len() ==> (#[trigger] out[i]).seq < (#[trigger] out[j]).seq
}

/// The number of packets at the front of `pending` that follow one another
/// without a gap, the first of them being `from`.
pub open spec fn run_len<T>(pending: Seq<Entry<T>>, from: int) -> nat
    decreases pending.len(),
{
    if pending.len() > 0 && pending[0].seq == from {
        1 + run_len(pending.drop_first(), from + 1)
    } else {
        0
    }
}

/// The number of packets in `pending` whose sequence number is below `seq`:
/// the place of `seq` among them.
pub open spec fn rank<T>(pending: Seq<Entry<T>>, seq: int) -> nat
    decreases pending.len(),
{
    if pending.len() == 0 {
        0
    } else {
        rank(pending.drop_last(), seq) + if pending.last().seq < seq {
            1nat
        } else {
            0nat
        }
    }
}

/// Whether a packet with the sequence number `seq` is among `pending`.
#[verifier::opaque]
pub open spec fn holds_seq<T>(pending: Seq<Entry<T>>, seq: int) -> bool {
    exists|i: int| 0 <= i < pending.len() && #[trigger] pending[i].seq == seq
}

/// Whether `pending` is in strictly increasing order of sequence number,
/// with every number after `next_expected` and less than half the wire's
/// range ahead of it.
pub open spec fn ordered_after<T>(pending: Seq<Entry<T>>, next_expected: int) -> bool {
    &&& forall|i: int|
        0 <= i < pending.len() ==> next_expected < #[trigger] pending[i].seq < next_expected
            + SEQ_HALF_RANGE
    &&& forall|i: int, j: int|
        0 <= i < j < pending.len() ==> #[trigger] pending[i].seq < #[trigger] pending[j].seq
}

impl<T> ReorderModel<T> {
    /// What holds of every buffer: sequence numbers do not go below zero,
    /// no more packets wait than may, they wait in order for a packet
    /// before all of them, and the wait is timed exactly while there is one.
    pub open spec fn wf(self) -> bool {
        &&& 0 <= self.next_expected
        &&& self.pending.len() <= self.max_reorder
        &&& ordered_after(self.pending, self.next_expected)
        &&& (self.waiting_since is Some <==> self.pending.len() > 0)
    }

    /// Whether the buffer can take another packet: its sequence numbers
    /// are below [`SEQ_LIMIT`].
    pub open spec fn has_room(self) -> bool {
        self.next_expected <= SEQ_LIMIT
    }

    /// A buffer that waits for `next_expected` first.
    pub open spec fn spec_new(next_expected: u16, max_reorder: nat, timeout_ms: u64) -> Self {
        ReorderModel {
            next_expected: next_expected as int,
            delivered_any: false,
            pending: Seq::empty(),
            max_reorder,
            waiting_since: None,
            timeout_ms,
        }
    }

    /// The buffer after all packets that wait have been handed on, and
    /// those packets as they are handed on.
    pub open spec fn spec_flush(self) -> (Self, Seq<Delivery<T>>) {
        if self.pending.len() == 0 {
            (self, Seq::empty())
        } else {
            (
                ReorderModel {
                    next_expected: self.pending.last().seq + 1,
                    delivered_any: true,
                    pending: Seq::empty(),
                    waiting_since: None,
                    ..self
                },
                with_losses(self.delivered_any, self.next_expected, self.pending),
            )
        }
    }

    /// The buffer after the packet `item` with the sequence number `wire`
    /// has arrived at the time `now_ms`, and the packets that are handed on
    /// because of it.
    ///
    /// - A packet from before `next_expected` is dropped.
    /// - The packet `next_expected` is handed on, and with it the packets
    ///   that wait and follow it without a gap.
    /// - A later packet waits, unless it waits already. If too many would
    ///   wait, all of them are handed on with this one, each in its place
    ///   and with the missing ones counted as lost.
    pub open spec fn spec_push(self, now_ms: u64, wire: u16, item: T) -> (Self, Seq<Delivery<T>>) {
        let seq = spec_extend_seq(self.next_expected, wire as int);
        let entry = Entry { seq: seq as i64, item };
        if seq < self.next_expected {
            (self, Seq::empty())
        } else if seq == self.next_expected {
            let run = run_len(self.pending, seq + 1);
            (
                ReorderModel {
                    next_expected: seq + 1 + run,
                    delivered_any: true,
                    pending: self.pending.skip(run as int),
                    waiting_since: if run < self.pending.len() {
                        Some(now_ms)
                    } else {
                        None
                    },
                    ..self
                },
                in_order(seq![entry] + self.pending.take(run as int)),
            )
        } else if holds_seq(self.pending, seq) {
            (self, Seq::empty())
        } else if self.pending.len() < self.max_reorder {
            (
                ReorderModel {
                    pending: self.pending.insert(rank(self.pending, seq) as int, entry),
                    waiting_since: if self.pending.len() == 0 {
                        Some(now_ms)
                    } else {
                        self.waiting_since
                    },
                    ..self
                },
                Seq::empty(),
            )
        } else {
            ReorderModel {
                pending: self.pending.insert(rank(self.pending, seq) as int, entry),
                ..self
            }.spec_flush()
        }
    }

    /// The buffer after the packets `arrivals` have arrived one after the
    /// other, and the packets that are handed on because of them, in the
    /// order in which they are handed on.
    pub open spec fn spec_push_all(self, arrivals: Seq<Arrival<T>>) -> (Self, Seq<Delivery<T>>)
        decreases arrivals.len(),
    {
        if arrivals.len() == 0 {
            (self, Seq::empty())
        } else {
            let (before, out) = self.spec_push_all(arrivals.drop_last());
            let last = arrivals.last();
            let (after, more) = before.spec_push(last.now_ms, last.wire, last.item);
            (after, out + more)
        }
    }

    /// Whether the missing packet has been waited for long enough at the
    /// time `now_ms`.
    pub open spec fn timed_out(self, now_ms: u64) -> bool {
        self.waiting_since matches Some(since) && now_ms - since >= self.timeout_ms
    }

    /// The buffer after the time `now_ms` has come, and the packets that are
    /// handed on because of it: all that wait, if the missing packet has
    /// been waited for long enough.
    pub open spec fn spec_poll(self, now_ms: u64) -> (Self, Seq<Delivery<T>>) {
        if self.timed_out(now_ms) {
            self.spec_flush()
        } else {
            (self, Seq::empty())
        }
    }

    /// The time at which the wait for the missing packet ends, if there is
    /// one.
    pub open spec fn spec_deadline(self) -> Option<int> {
        match self.waiting_since {
            Some(since) => Some(since + self.timeout_ms),
            None => None,
        }
    }
}

/// The extended form of a sequence number lies within half the wire's range
/// of `next_expected`, the earlier end included and the later not, and ends
/// in the same 16 bits.
pub proof fn lemma_extend_seq(next_expected: int, wire: int)
    requires
        0 <= wire < SEQ_RANGE,
    ensures
        next_expected - SEQ_HALF_RANGE <= spec_extend_seq(next_expected, wire) < next_expected
            + SEQ_HALF_RANGE,
        spec_extend_seq(next_expected, wire) % (SEQ_RANGE as int) == wire,
{
    let r: int = SEQ_RANGE as int;
    let d: int = (wire - next_expected + SEQ_HALF_RANGE) % r;
    let q: int = (wire - next_expected + SEQ_HALF_RANGE) / r;
    vstd::arithmetic::div_mod::lemma_fundamental_div_mod(wire - next_expected + SEQ_HALF_RANGE, r);
    let e: int = spec_extend_seq(next_expected, wire);
    assert(e == wire - r * q);
    assert(e % r == wire) by {
        vstd::arithmetic::div_mod::lemma_mod_multiples_vanish(-q, wire, r);
        assert(r * (-q) == -(r * q)) by (nonlinear_arith);
        vstd::arithmetic::div_mod::lemma_small_mod(wire as nat, r as nat);
    }
}

/// A number within half the wire's range of `next_expected` is the extended
/// form of its own last 16 bits.
pub proof fn lemma_extend_seq_of_close(next_expected: int, seq: int)
    requires
        next_expected - SEQ_HALF_RANGE <= seq < next_expected + SEQ_HALF_RANGE,
    ensures
        spec_extend_seq(next_expected, seq % (SEQ_RANGE as int)) == seq,
{
    let r: int = SEQ_RANGE as int;
    let wire: int = seq % r;
    lemma_extend_seq(next_expected, wire);
    vstd::arithmetic::div_mod::lemma_mod_twice(seq, r);
    lemma_congruent_close(seq, spec_extend_seq(next_expected, wire), r);
}

/// Two numbers that leave the same remainder and are less than the divisor
/// apart are equal.
proof fn lemma_congruent_close(a: int, b: int, r: int)
    requires
        r > 0,
        a % r == b % r,
        -r < a - b < r,
    ensures
        a == b,
{
    vstd::arithmetic::div_mod::lemma_fundamental_div_mod(a, r);
    vstd::arithmetic::div_mod::lemma_fundamental_div_mod(b, r);
    let qa: int = a / r;
    let qb: int = b / r;
    assert(a - b == r * (qa - qb)) by (nonlinear_arith)
        requires
            a == r * qa + a % r,
            b == r * qb + b % r,
            a % r == b % r,
    ;
    if qa - qb >= 1 {
        assert(r * (qa - qb) >= r) by (nonlinear_arith)
            requires
                qa - qb >= 1,
                r > 0,
        ;
    } else if qa - qb <= -1 {
        assert(r * (qa - qb) <= -r) by (nonlinear_arith)
            requires
                qa - qb <= -1,
                r > 0,
        ;
    }
}

/// Extends the sequence number `wire` to the number closest to
/// `next_expected`.
pub fn extend_seq(next_expected: i64, wire: u16) -> (r: i64)
    requires
        0 <= next_expected <= SEQ_LIMIT,
    ensures
        r == spec_extend_seq(next_expected as int, wire as int),
        next_expected - SEQ_HALF_RANGE <= r < next_expected + SEQ_HALF_RANGE,
{
    let low: i64 = next_expected % SEQ_RANGE;
    let ahead: i64 = (wire as i64 + SEQ_RANGE + SEQ_HALF_RANGE - low) % SEQ_RANGE;
    proof {
        let r: int = SEQ_RANGE as int;
        let q: int = next_expected as int / r;
        vstd::arithmetic::div_mod::lemma_fundamental_div_mod(next_expected as int, r);
        let x: int = wire as int - next_expected as int + SEQ_HALF_RANGE as int;
        assert(wire as int + r + SEQ_HALF_RANGE as int - low as int == x + r * (q + 1))
            by (nonlinear_arith)
            requires
                x == wire as int - next_expected as int + SEQ_HALF_RANGE as int,
                next_expected as int == r * q + low as int,
        ;
        vstd::arithmetic::div_mod::lemma_mod_multiples_vanish(q + 1, x, r);
        lemma_extend_seq(next_expected as int, wire as int);
    }
    next_expected + ahead - SEQ_HALF_RANGE
}

/// The number of lost packets that is reported for a packet that follows
/// `previous_next`, the number that was expected, as `seq`.
fn loss_between(previous_next: i64, seq: i64) -> (r: u16)
    requires
        0 <= previous_next <= seq,
    ensures
        r == spec_loss(seq - previous_next),
{
    let gap: i64 = seq - previous_next;
    if gap >= MAX_LOSS as i64 {
        MAX_LOSS
    } else {
        gap as u16
    }
}

/// Puts the packets of one stream back in order.
pub struct ReorderBuffer<T> {
    next_expected: i64,
    delivered_any: bool,
    pending: VecDeque<Entry<T>>,
    max_reorder: usize,
    waiting_since: Option<u64>,
    timeout_ms: u64,
}

impl<T> View for ReorderBuffer<T> {
    type V = ReorderModel<T>;

    closed spec fn view(&self) -> ReorderModel<T> {
        ReorderModel {
            next_expected: self.next_expected as int,
            delivered_any: self.delivered_any,
            pending: self.pending@,
            max_reorder: self.max_reorder as nat,
            waiting_since: self.waiting_since,
            timeout_ms: self.timeout_ms,
        }
    }
}

impl<T> ReorderBuffer<T> {
    /// A buffer that waits for the sequence number `next_expected` first,
    /// lets up to `max_reorder` packets wait for a missing one, and waits
    /// for `timeout_ms` milliseconds.
    pub fn new(next_expected: u16, max_reorder: usize, timeout_ms: u64) -> (r: ReorderBuffer<T>)
        ensures
            r@ == ReorderModel::<T>::spec_new(next_expected, max_reorder as nat, timeout_ms),
            r@.wf(),
            r@.has_room(),
    {
        ReorderBuffer {
            next_expected: next_expected as i64,
            delivered_any: false,
            pending: VecDeque::new(),
            max_reorder,
            waiting_since: None,
            timeout_ms,
        }
    }

    /// The extended sequence number of the packet that is handed on next if
    /// it arrives.
    pub fn next_expected(&self) -> (r: i64)
        ensures
            r == self@.next_expected,
    {
        self.next_expected
    }

    /// The number of packets that wait.
    pub fn pending_len(&self) -> (r: usize)
        ensures
            r == self@.pending.len(),
    {
        self.pending.len()
    }

    /// Whether the buffer can take another packet.
    pub fn has_room(&self) -> (r: bool)
        ensures
            r == self@.has_room(),
    {
        self.next_expected <= SEQ_LIMIT
    }

    /// The time at which the wait for the missing packet ends, if there is
    /// one and the time fits.
    pub fn deadline(&self) -> (r: Option<u64>)
        ensures
            match self@.spec_deadline() {
                Some(at) => if at <= u64::MAX {
                    r == Some(at as u64)
                } else {
                    r is None
                },
                None => r is None,
            },
    {
        match self.waiting_since {
            Some(since) => since.checked_add(self.timeout_ms),
            None => None,
        }
    }

    /// Hands on every packet that waits, in order, and appends them to
    /// `out`.
    #[verifier::rlimit(30)]
    fn flush_into(&mut self, out: &mut Vec<Delivery<T>>)
        requires
            0 <= old(self)@.next_expected,
            ordered_after(old(self)@.pending, old(self)@.next_expected),
            old(self)@.next_expected <= SEQ_LIMIT,
            old(self)@.pending.len() == 0 ==> old(self)@.waiting_since is None,
        ensures
            final(self)@ == old(self)@.spec_flush().0,
            final(out)@ == old(out)@ + old(self)@.spec_flush().1,
    {
        let ghost start = self@;
        let ghost all = self@.pending;
        let ghost losses = with_losses(start.delivered_any, start.next_expected, all);
        let ghost mut done: int = 0;
        proof {
            assert(all.skip(0) =~= all);
        }
        while self.pending.len() > 0
            invariant
                0 <= start.next_expected <= SEQ_LIMIT,
                ordered_after(all, start.next_expected),
                all == start.pending,
                losses == with_losses(start.delivered_any, start.next_expected, all),
                0 <= done <= all.len(),
                self@.pending == all.skip(done),
                self@.max_reorder == start.max_reorder,
                self@.timeout_ms == start.timeout_ms,
                self@.waiting_since == start.waiting_since,
                done == 0 ==> self@.next_expected == start.next_expected && self@.delivered_any
                    == start.delivered_any,
                done > 0 ==> self@.next_expected == all[done - 1].seq + 1 && self@.delivered_any,
                out@ == old(out)@ + losses.take(done),
            decreases all.len() - done,
        {
            let ghost before = self.pending@;
            let entry = self.pending.pop_front().unwrap();
            proof {
                assert(entry == all[done]);
                assert(before.drop_first() =~= all.skip(done + 1));
                if done > 0 {
                    assert(all[done - 1].seq < all[done].seq);
                }
            }
            let loss: u16 = if self.delivered_any {
                loss_between(self.next_expected, entry.seq)
            } else {
                0
            };
            self.next_expected = entry.seq + 1;
            self.delivered_any = true;
            out.push(Delivery { seq: entry.seq, loss, item: entry.item });
            proof {
                assert(losses[done] == Delivery { seq: entry.seq, loss, item: entry.item });
                assert(losses.take(done + 1) =~= losses.take(done).push(losses[done]));
                done = done + 1;
            }
        }
        self.waiting_since = None;
        proof {
            assert(losses.take(done) =~= losses);
            if all.len() == 0 {
                assert(self@ == start);
                assert(out@ =~= old(out)@ + Seq::<Delivery<T>>::empty());
            } else {
                assert(self@.pending =~= Seq::<Entry<T>>::empty());
            }
        }
    }

    /// Hands on the packets at the front that follow one another without a
    /// gap from `next_expected` on, and appends them to `out`.
    #[verifier::rlimit(30)]
    fn drain_into(&mut self, out: &mut Vec<Delivery<T>>)
        requires
            0 <= old(self)@.next_expected <= SEQ_LIMIT + SEQ_HALF_RANGE,
            forall|i: int, j: int|
                0 <= i < j < old(self)@.pending.len() ==> #[trigger] old(self)@.pending[i].seq
                    < #[trigger] old(self)@.pending[j].seq,
            forall|i: int|
                0 <= i < old(self)@.pending.len() ==> #[trigger] old(self)@.pending[i].seq
                    <= SEQ_LIMIT + SEQ_HALF_RANGE,
        ensures
            final(self)@ == (ReorderModel {
                next_expected: old(self)@.next_expected + run_len(
                    old(self)@.pending,
                    old(self)@.next_expected,
                ),
                pending: old(self)@.pending.skip(
                    run_len(old(self)@.pending, old(self)@.next_expected) as int,
                ),
                ..old(self)@
            }),
            run_len(old(self)@.pending, old(self)@.next_expected) <= old(self)@.pending.len(),
            final(out)@ == old(out)@ + in_order(
                old(self)@.pending.take(
                    run_len(old(self)@.pending, old(self)@.next_expected) as int,
                ),
            ),
    {
        let ghost start = self@;
        let ghost all = self@.pending;
        let ghost run = run_len(all, start.next_expected);
        let ghost mut done: int = 0;
        proof {
            assert(all.skip(0) =~= all);
            assert(all.take(0) =~= Seq::<Entry<T>>::empty());
            assert(out@ =~= old(out)@ + in_order(all.take(0)));
        }
        loop
            invariant_except_break
                all == start.pending,
                run == run_len(all, start.next_expected),
                0 <= start.next_expected <= SEQ_LIMIT + SEQ_HALF_RANGE,
                forall|i: int|
                    0 <= i < all.len() ==> #[trigger] all[i].seq <= SEQ_LIMIT + SEQ_HALF_RANGE,
                0 <= done <= all.len(),
                self@ == (ReorderModel {
                    next_expected: start.next_expected + done,
                    pending: all.skip(done),
                    ..start
                }),
                run == done + run_len(all.skip(done), start.next_expected + done),
                forall|i: int| 0 <= i < done ==> (#[trigger] all[i]).seq == start.next_expected + i,
                out@ == old(out)@ + in_order(all.take(done)),
            ensures
                0 <= done <= all.len(),
                run == done,
                self@ == (ReorderModel {
                    next_expected: start.next_expected + done,
                    pending: all.skip(done),
                    ..start
                }),
                out@ == old(out)@ + in_order(all.take(done)),
            decreases all.len() - done,
        {
            if self.pending.len() == 0 {
                break ;
            }
            if self.pending[0].seq != self.next_expected {
                break ;
            }
            let ghost before = self.pending@;
            let entry = self.pending.pop_front().unwrap();
            proof {
                assert(entry == all[done]);
                assert(before.drop_first() =~= all.skip(done + 1));
            }
            self.next_expected = entry.seq + 1;
            out.push(Delivery { seq: entry.seq, loss: 0, item: entry.item });
            proof {
                assert(in_order(all.take(done + 1)) =~= in_order(all.take(done)).push(
                    Delivery { seq: entry.seq, loss: 0, item: entry.item },
                ));
                done = done + 1;
            }
        }
    }

    /// The place of `seq` among the packets that wait, and whether a packet
    /// with that number waits already.
    #[verifier::rlimit(30)]
    fn find(&self, seq: i64) -> (r: (usize, bool))
        requires
            forall|i: int, j: int|
                0 <= i < j < self@.pending.len() ==> #[trigger] self@.pending[i].seq
                    < #[trigger] self@.pending[j].seq,
        ensures
            r.0 == rank(self@.pending, seq as int),
            r.0 <= self@.pending.len(),
            r.1 == holds_seq(self@.pending, seq as int),
            forall|i: int| 0 <= i < r.0 ==> (#[trigger] self@.pending[i]).seq < seq,
            forall|i: int| r.0 <= i < self@.pending.len() ==> (#[trigger] self@.pending[i]).seq >= seq,
    {
        let mut at: usize = 0;
        while at < self.pending.len() && self.pending[at].seq < seq
            invariant
                0 <= at <= self@.pending.len(),
                forall|i: int| 0 <= i < at ==> (#[trigger] self@.pending[i]).seq < seq,
            decreases self@.pending.len() - at,
        {
            at = at + 1;
        }
        let found: bool = at < self.pending.len() && self.pending[at].seq == seq;
        proof {
            assert forall|i: int| at <= i < self@.pending.len() implies (
            #[trigger] self@.pending[i]).seq >= seq by {
                if i > at {
                    assert(self@.pending[at as int].seq < self@.pending[i].seq);
                }
            }
            lemma_rank_of_split(self@.pending, seq as int, at as int);
            reveal(holds_seq);
            if found {
                assert(self@.pending[at as int].seq == seq);
            } else {
                assert forall|i: int| 0 <= i < self@.pending.len() implies (
                #[trigger] self@.pending[i]).seq != seq by {
                    if i > at {
                        assert(self@.pending[at as int].seq < self@.pending[i].seq);
                    }
                }
            }
        }
        (at, found)
    }

    /// Hands on every packet that waits, in order and with the missing ones
    /// counted as lost: the buffer stops waiting.
    pub fn flush(&mut self) -> (out: Vec<Delivery<T>>)
        requires
            old(self)@.wf(),
            old(self)@.has_room(),
        ensures
            final(self)@.wf(),
            (final(self)@, out@) == old(self)@.spec_flush(),
            out@.len() < SEQ_HALF_RANGE,
            ascending_within(out@, old(self)@.next_expected, final(self)@.next_expected),
    {
        let mut out: Vec<Delivery<T>> = Vec::new();
        self.flush_into(&mut out);
        proof {
            assert(out@ =~= old(self)@.spec_flush().1);
            lemma_flush_wf(old(self)@);
        }
        out
    }

    /// Takes note of the time `now_ms`, and hands on every packet that
    /// waits if the missing packet has been waited for long enough.
    pub fn poll(&mut self, now_ms: u64) -> (out: Vec<Delivery<T>>)
        requires
            old(self)@.wf(),
            old(self)@.has_room(),
        ensures
            final(self)@.wf(),
            (final(self)@, out@) == old(self)@.spec_poll(now_ms),
            out@.len() < SEQ_HALF_RANGE,
            ascending_within(out@, old(self)@.next_expected, final(self)@.next_expected),
    {
        let timed_out: bool = match self.waiting_since {
            Some(since) => now_ms >= since && now_ms - since >= self.timeout_ms,
            None => false,
        };
        if timed_out {
            self.flush()
        } else {
            Vec::new()
        }
    }

    /// Takes the packet `item` with the sequence number `wire`, which has
    /// arrived at the time `now_ms`, and returns the packets that are
    /// handed on because of it, in order.
    #[verifier::rlimit(30)]
    pub fn push(&mut self, now_ms: u64, wire: u16, item: T) -> (out: Vec<Delivery<T>>)
        requires
            old(self)@.wf(),
            old(self)@.has_room(),
        ensures
            final(self)@.wf(),
            (final(self)@, out@) == old(self)@.spec_push(now_ms, wire, item),
            old(self)@.next_expected <= final(self)@.next_expected <= old(self)@.next_expected
                + SEQ_HALF_RANGE,
            out@.len() <= SEQ_HALF_RANGE,
            ascending_within(out@, old(self)@.next_expected, final(self)@.next_expected),
    {
        let mut out: Vec<Delivery<T>> = Vec::new();
        let seq: i64 = extend_seq(self.next_expected, wire);
        proof {
            lemma_push_wf(old(self)@, now_ms, wire, item);
        }
        if seq < self.next_expected {
            return out;
        }
        if seq == self.next_expected {
            out.push(Delivery { seq, loss: 0, item });
            self.next_expected = seq + 1;
            self.delivered_any = true;
            proof {
                assert(out@ =~= in_order(seq![Entry { seq, item }]));
            }
            self.drain_into(&mut out);
            self.waiting_since = if self.pending.len() > 0 {
                Some(now_ms)
            } else {
                None
            };
            proof {
                let run = run_len(old(self)@.pending, seq + 1);
                assert(out@ =~= in_order(
                    seq![Entry { seq, item }] + old(self)@.pending.take(run as int),
                ));
            }
            return out;
        }
        let (at, found) = self.find(seq);
        if found {
            return out;
        }
        if self.pending.len() < self.max_reorder {
            if self.pending.len() == 0 {
                self.waiting_since = Some(now_ms);
            }
            self.pending.insert(at, Entry { seq, item });
            return out;
        }
        self.pending.insert(at, Entry { seq, item });
        proof {
            lemma_insert_ordered(old(self)@.pending, old(self)@.next_expected, Entry { seq, item });
        }
        self.flush_into(&mut out);
        proof {
            let grown = ReorderModel {
                pending: old(self)@.pending.insert(
                    rank(old(self)@.pending, seq as int) as int,
                    Entry { seq, item },
                ),
                ..old(self)@
            };
            assert(out@ =~= grown.spec_flush().1);
        }
        out
    }
}

/// Packets that wait in order, all of them after `low` and before `high`,
/// are fewer than the numbers between the two.
pub proof fn lemma_ordered_len<T>(pending: Seq<Entry<T>>, low: int, high: int)
    requires
        forall|i: int, j: int|
            0 <= i < j < pending.len() ==> #[trigger] pending[i].seq < #[trigger] pending[j].seq,
        forall|i: int| 0 <= i < pending.len() ==> low < (#[trigger] pending[i]).seq < high,
    ensures
        pending.len() == 0 || pending.len() <= high - low - 1,
    decreases pending.len(),
{
    if pending.len() > 0 {
        let rest = pending.drop_last();
        let last = pending.last();
        assert forall|i: int| 0 <= i < rest.len() implies low < (#[trigger] rest[i]).seq
            < last.seq by {
            assert(rest[i] == pending[i]);
            assert(pending[i].seq < pending[pending.len() - 1].seq);
        }
        assert forall|i: int, j: int| 0 <= i < j < rest.len() implies #[trigger] rest[i].seq
            < #[trigger] rest[j].seq by {
            assert(pending[i].seq < pending[j].seq);
        }
        lemma_ordered_len(rest, low, last.seq as int);
    }
}

/// The packet at the index `at` is among `pending`.
pub proof fn lemma_holds_seq_at<T>(pending: Seq<Entry<T>>, at: int)
    requires
        0 <= at < pending.len(),
    ensures
        holds_seq(pending, pending[at].seq as int),
{
    reveal(holds_seq);
}

/// A packet that is among `pending` is found at some index.
pub proof fn lemma_holds_seq_where<T>(pending: Seq<Entry<T>>, seq: int) -> (at: int)
    requires
        holds_seq(pending, seq),
    ensures
        0 <= at < pending.len(),
        pending[at].seq == seq,
{
    reveal(holds_seq);
    choose|at: int| 0 <= at < pending.len() && #[trigger] pending[at].seq == seq
}

/// The place of a sequence number in an ordered sequence is the index that
/// splits it into the packets below the number and the others.
pub proof fn lemma_rank_of_split<T>(pending: Seq<Entry<T>>, seq: int, at: int)
    requires
        0 <= at <= pending.len(),
        forall|i: int| 0 <= i < at ==> (#[trigger] pending[i]).seq < seq,
        forall|i: int| at <= i < pending.len() ==> (#[trigger] pending[i]).seq >= seq,
    ensures
        rank(pending, seq) == at,
    decreases pending.len(),
{
    if pending.len() > 0 {
        let rest = pending.drop_last();
        if at == pending.len() {
            lemma_rank_of_split(rest, seq, at - 1);
        } else {
            lemma_rank_of_split(rest, seq, at);
        }
    }
}

/// A packet that is put in its place among packets that wait in order
/// leaves them in order.
#[verifier::rlimit(30)]
pub proof fn lemma_insert_ordered<T>(pending: Seq<Entry<T>>, next_expected: int, entry: Entry<T>)
    requires
        ordered_after(pending, next_expected),
        next_expected < entry.seq < next_expected + SEQ_HALF_RANGE,
        !holds_seq(pending, entry.seq as int),
    ensures
        ordered_after(pending.insert(rank(pending, entry.seq as int) as int, entry), next_expected),
        rank(pending, entry.seq as int) <= pending.len(),
        forall|i: int|
            0 <= i < rank(pending, entry.seq as int) ==> (#[trigger] pending[i]).seq < entry.seq,
        forall|i: int|
            rank(pending, entry.seq as int) <= i < pending.len() ==> (#[trigger] pending[i]).seq
                > entry.seq,
{
    let at = lemma_rank_splits(pending, entry.seq as int);
    let grown = pending.insert(at, entry);
    assert forall|i: int| at <= i < pending.len() implies (#[trigger] pending[i]).seq
        > entry.seq by {
        assert(pending[i].seq >= entry.seq);
        if pending[i].seq == entry.seq {
            lemma_holds_seq_at(pending, i);
        }
    }
    assert forall|i: int, j: int| 0 <= i < j < grown.len() implies #[trigger] grown[i].seq
        < #[trigger] grown[j].seq by {
        let pi = if i < at {
            i
        } else {
            i - 1
        };
        let pj = if j < at {
            j
        } else {
            j - 1
        };
        if i != at && j != at {
            assert(pending[pi].seq < pending[pj].seq);
        } else if i == at {
            assert(pending[pj].seq > entry.seq);
        } else {
            assert(pending[pi].seq < entry.seq);
        }
    }
    assert forall|i: int| 0 <= i < grown.len() implies next_expected < #[trigger] grown[i].seq
        < next_expected + SEQ_HALF_RANGE by {
        if i < at {
            assert(grown[i] == pending[i]);
        } else if i > at {
            assert(grown[i] == pending[i - 1]);
        }
    }
}

/// In an ordered sequence, the place of a sequence number splits the
/// sequence into the packets below the number and the others.
#[verifier::rlimit(30)]
pub proof fn lemma_rank_splits<T>(pending: Seq<Entry<T>>, seq: int) -> (at: int)
    requires
        forall|i: int, j: int|
            0 <= i < j < pending.len() ==> #[trigger] pending[i].seq < #[trigger] pending[j].seq,
    ensures
        at == rank(pending, seq),
        0 <= at <= pending.len(),
        forall|i: int| 0 <= i < at ==> (#[trigger] pending[i]).seq < seq,
        forall|i: int| at <= i < pending.len() ==> (#[trigger] pending[i]).seq >= seq,
    decreases pending.len(),
{
    if pending.len() == 0 {
        0
    } else {
        let rest = pending.drop_last();
        let before = lemma_rank_splits(rest, seq);
        if pending.last().seq < seq {
            assert forall|i: int| 0 <= i < pending.len() implies (#[trigger] pending[i]).seq
                < seq by {
                if i < pending.len() - 1 {
                    assert(pending[i].seq < pending[pending.len() - 1].seq);
                }
            }
            lemma_rank_of_split(rest, seq, rest.len() as int);
            pending.len() as int
        } else {
            assert forall|i: int| 0 <= i < before implies (#[trigger] pending[i]).seq < seq by {
                assert(pending[i] == rest[i]);
            }
            assert forall|i: int| before <= i < pending.len() implies (#[trigger] pending[i]).seq
                >= seq by {
                if i < pending.len() - 1 {
                    assert(pending[i] == rest[i]);
                }
            }
            before
        }
    }
}

/// The run of packets that follow one another at the front of an ordered
/// sequence is no longer than the sequence, each packet of it has the
/// number that its place gives it, and what comes after the run is further
/// ahead.
#[verifier::rlimit(30)]
pub proof fn lemma_run_len<T>(pending: Seq<Entry<T>>, from: int)
    requires
        forall|i: int, j: int|
            0 <= i < j < pending.len() ==> #[trigger] pending[i].seq < #[trigger] pending[j].seq,
        forall|i: int| 0 <= i < pending.len() ==> (#[trigger] pending[i]).seq >= from,
    ensures
        run_len(pending, from) <= pending.len(),
        forall|i: int| 0 <= i < run_len(pending, from) ==> (#[trigger] pending[i]).seq == from + i,
        forall|i: int|
            run_len(pending, from) <= i < pending.len() ==> (#[trigger] pending[i]).seq > from
                + run_len(pending, from),
    decreases pending.len(),
{
    if pending.len() > 0 && pending[0].seq == from {
        let rest = pending.drop_first();
        assert forall|i: int| 0 <= i < rest.len() implies (#[trigger] rest[i]).seq >= from + 1 by {
            assert(rest[i] == pending[i + 1]);
            assert(pending[0].seq < pending[i + 1].seq);
        }
        assert forall|i: int, j: int| 0 <= i < j < rest.len() implies #[trigger] rest[i].seq
            < #[trigger] rest[j].seq by {
            assert(pending[i + 1].seq < pending[j + 1].seq);
        }
        lemma_run_len(rest, from + 1);
        let run = run_len(pending, from);
        assert forall|i: int| 0 <= i < run implies (#[trigger] pending[i]).seq == from + i by {
            if i > 0 {
                assert(pending[i] == rest[i - 1]);
            }
        }
        assert forall|i: int| run <= i < pending.len() implies (#[trigger] pending[i]).seq > from
            + run by {
            assert(pending[i] == rest[i - 1]);
        }
    } else {
        assert forall|i: int| 0 <= i < pending.len() implies (#[trigger] pending[i]).seq
            > from by {
            if i > 0 {
                assert(pending[0].seq < pending[i].seq);
            }
        }
    }
}

/// A buffer that stops waiting is as it should be afterwards, and what it
/// hands on is in strictly increasing order, from the packet that it
/// expected on and before the one that it expects afterwards.
pub proof fn lemma_flush_wf<T>(m: ReorderModel<T>)
    requires
        m.wf(),
    ensures
        m.spec_flush().0.wf(),
        m.spec_flush().0.next_expected <= m.next_expected + SEQ_HALF_RANGE,
        m.spec_flush().0.next_expected >= m.next_expected,
        m.spec_flush().1.len() == m.pending.len(),
        m.spec_flush().1.len() < SEQ_HALF_RANGE,
        ascending_within(m.spec_flush().1, m.next_expected, m.spec_flush().0.next_expected),
{
    lemma_flush_ascending(m.delivered_any, m.next_expected, m.pending);
    lemma_ordered_len(m.pending, m.next_expected, m.next_expected + SEQ_HALF_RANGE);
}

/// Packets that wait in order are handed on in strictly increasing order
/// when the buffer stops waiting.
pub proof fn lemma_flush_ascending<T>(count_first: bool, next_expected: int, pending: Seq<Entry<T>>)
    requires
        ordered_after(pending, next_expected),
    ensures
        pending.len() > 0 ==> next_expected < pending.last().seq,
        pending.len() > 0 ==> ascending_within(
            with_losses(count_first, next_expected, pending),
            next_expected,
            pending.last().seq + 1,
        ),
{
    if pending.len() > 0 {
        let out = with_losses(count_first, next_expected, pending);
        let last = pending.len() - 1;
        assert(next_expected < pending[last].seq);
        assert forall|i: int| 0 <= i < out.len() implies next_expected <= (#[trigger] out[i]).seq
            < pending.last().seq + 1 by {
            assert(out[i].seq == pending[i].seq);
            if i < last {
                assert(pending[i].seq < pending[last].seq);
            }
        }
        assert forall|i: int, j: int| 0 <= i < j < out.len() implies (#[trigger] out[i]).seq < (
        #[trigger] out[j]).seq by {
            assert(pending[i].seq < pending[j].seq);
        }
    }
}

/// A buffer that takes a packet is as it should be afterwards, and its
/// sequence numbers have moved on by no more than half the wire's range.
/// What it hands on is in strictly increasing order, from the packet that
/// it expected on and before the one that it expects afterwards.
#[verifier::rlimit(30)]
pub proof fn lemma_push_wf<T>(m: ReorderModel<T>, now_ms: u64, wire: u16, item: T)
    requires
        m.wf(),
        m.has_room(),
    ensures
        m.spec_push(now_ms, wire, item).0.wf(),
        m.next_expected <= m.spec_push(now_ms, wire, item).0.next_expected <= m.next_expected
            + SEQ_HALF_RANGE,
        m.spec_push(now_ms, wire, item).0.max_reorder == m.max_reorder,
        m.spec_push(now_ms, wire, item).0.timeout_ms == m.timeout_ms,
        m.spec_push(now_ms, wire, item).1.len() <= SEQ_HALF_RANGE,
        ascending_within(
            m.spec_push(now_ms, wire, item).1,
            m.next_expected,
            m.spec_push(now_ms, wire, item).0.next_expected,
        ),
{
    lemma_ordered_len(m.pending, m.next_expected, m.next_expected + SEQ_HALF_RANGE);
    let seq = spec_extend_seq(m.next_expected, wire as int);
    lemma_extend_seq(m.next_expected, wire as int);
    let entry = Entry { seq: seq as i64, item };
    if seq < m.next_expected {
    } else if seq == m.next_expected {
        assert forall|i: int| 0 <= i < m.pending.len() implies (#[trigger] m.pending[i]).seq >= seq
            + 1 by {}
        lemma_run_len(m.pending, seq + 1);
        let run = run_len(m.pending, seq + 1);
        let rest = m.pending.skip(run as int);
        assert forall|i: int| 0 <= i < rest.len() implies seq + 1 + run < (#[trigger] rest[i]).seq
            < seq + 1 + run + SEQ_HALF_RANGE by {
            assert(rest[i] == m.pending[i + run]);
        }
        assert forall|i: int, j: int| 0 <= i < j < rest.len() implies #[trigger] rest[i].seq
            < #[trigger] rest[j].seq by {
            assert(m.pending[i + run].seq < m.pending[j + run].seq);
        }
        if run > 0 {
            assert(m.pending[run - 1].seq == seq + 1 + (run - 1));
        }
        let handed = seq![entry] + m.pending.take(run as int);
        let out = in_order(handed);
        assert forall|i: int| 0 <= i < out.len() implies (#[trigger] out[i]).seq == seq + i by {
            if i > 0 {
                assert(handed[i] == m.pending[i - 1]);
            }
        }
    } else if holds_seq(m.pending, seq) {
    } else {
        lemma_insert_ordered(m.pending, m.next_expected, entry);
        let grown = ReorderModel {
            pending: m.pending.insert(rank(m.pending, seq) as int, entry),
            ..m
        };
        if m.pending.len() < m.max_reorder {
        } else {
            lemma_flush_ascending(m.delivered_any, m.next_expected, grown.pending);
            lemma_ordered_len(grown.pending, m.next_expected, m.next_expected + SEQ_HALF_RANGE);
        }
    }
}

} // verus!
