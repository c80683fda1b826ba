//! What a [`ReorderBuffer`](super::reorder::ReorderBuffer) does to whole
//! runs of packets: one that arrives shuffled, and one with a gap.

use super::reorder::{
    holds_seq, in_order, lemma_extend_seq_of_close, lemma_holds_seq_at, lemma_holds_seq_where,
    lemma_insert_ordered, lemma_ordered_len, lemma_push_wf, lemma_run_len, ordered_after, rank,
    run_len,
    spec_extend_seq, with_losses, Arrival, Delivery, Entry, ReorderModel, SEQ_HALF_RANGE,
    SEQ_LIMIT, SEQ_RANGE,
};
use vstd::prelude::*;

verus! {

/// Whether the number `k` is among the first `upto` numbers of `order`.
#[verifier::opaque]
pub open spec fn named_within(order: Seq<int>, upto: int, k: int) -> bool {
    exists|j: int| 0 <= j < upto && j < order.len() && #[trigger] order[j] == k
}

/// Whether `order` names each of the numbers from 0 up to `count`, the
/// latter left out, exactly once.
pub open spec fn is_permutation(order: Seq<int>, count: int) -> bool {
    &&& order.len() == count
    &&& forall|j: int| 0 <= j < count ==> 0 <= #[trigger] order[j] < count
    &&& forall|i: int, j: int| 0 <= i < j < count ==> #[trigger] order[i] != #[trigger] order[j]
    &&& forall|k: int| 0 <= k < count ==> #[trigger] named_within(order, count, k)
}

/// The packets `sent` with the sequence numbers that follow one another
/// from `first` on.
pub open spec fn numbered<T>(first: int, sent: Seq<T>) -> Seq<Entry<T>> {
    Seq::new(sent.len(), |k: int| Entry { seq: (first + k) as i64, item: sent[k] })
}

/// The packets `sent`, numbered from `first` on, as they arrive where
/// `order` names the packet that arrives first, the one that arrives second
/// and so on, and `times` holds the times of arrival.
pub open spec fn arrivals_of<T>(first: int, sent: Seq<T>, order: Seq<int>, times: Seq<u64>) -> Seq<
    Arrival<T>,
> {
    Seq::new(
        order.len(),
        |j: int|
            Arrival {
                now_ms: times[j],
                wire: ((first + order[j]) % (SEQ_RANGE as int)) as u16,
                item: sent[order[j]],
            },
    )
}

/// Whether each of the first `d` packets has arrived among the first `j`
/// arrivals.
spec fn all_arrived(order: Seq<int>, j: int, d: int) -> bool {
    forall|k: int| 0 <= k < d ==> #[trigger] named_within(order, j, k)
}

/// Whether each packet that waits is one of those after packet `d` that has
/// arrived among the first `j` arrivals.
spec fn waiting_known<T>(
    pending: Seq<Entry<T>>,
    first: int,
    sent: Seq<T>,
    order: Seq<int>,
    j: int,
    d: int,
) -> bool {
    forall|i: int|
        0 <= i < pending.len() ==> d < (#[trigger] pending[i]).seq - first < sent.len()
            && named_within(order, j, pending[i].seq - first) && pending[i].item
            == sent[pending[i].seq - first]
}

/// Whether each packet after packet `d` that has arrived among the first
/// `j` arrivals waits.
spec fn arrived_wait<T>(pending: Seq<Entry<T>>, first: int, order: Seq<int>, j: int, d: int) -> bool {
    forall|i: int| 0 <= i < j && order[i] > d ==> holds_seq(pending, first + #[trigger] order[i])
}

/// What holds while shuffled packets arrive at a buffer that was `m`: after
/// the first `j` arrivals the buffer is `state` and has handed on `out`.
spec fn shuffle_inv<T>(
    m: ReorderModel<T>,
    sent: Seq<T>,
    order: Seq<int>,
    j: int,
    state: ReorderModel<T>,
    out: Seq<Delivery<T>>,
) -> bool {
    let first = m.next_expected;
    let d = state.next_expected - first;
    &&& 0 <= d <= sent.len()
    &&& state.wf()
    &&& state.max_reorder == m.max_reorder
    &&& state.timeout_ms == m.timeout_ms
    &&& state.delivered_any == (m.delivered_any || d > 0)
    &&& all_arrived(order, j, d)
    &&& d < sent.len() ==> !named_within(order, j, d)
    &&& waiting_known(state.pending, first, sent, order, j, d)
    &&& arrived_wait(state.pending, first, order, j, d)
    &&& out == in_order(numbered(first, sent.take(d)))
}

/// What is asked of a shuffled run of packets and the buffer `m` at which
/// it arrives.
spec fn shuffle_pre<T>(m: ReorderModel<T>, sent: Seq<T>, order: Seq<int>, times: Seq<u64>) -> bool {
    &&& m.wf()
    &&& m.pending.len() == 0
    &&& m.next_expected + sent.len() <= SEQ_LIMIT
    &&& sent.len() <= m.max_reorder
    &&& sent.len() <= SEQ_HALF_RANGE
    &&& times.len() == sent.len()
    &&& is_permutation(order, sent.len() as int)
}

/// What has arrived among the first `j` arrivals has arrived among the
/// first `j + 1`, and so has arrival `j` itself.
proof fn lemma_named_more(order: Seq<int>, j: int, k: int)
    requires
        0 <= j < order.len(),
        named_within(order, j, k) || order[j] == k,
    ensures
        named_within(order, j + 1, k),
{
    reveal(named_within);
    if order[j] == k {
        assert(0 <= j < j + 1 && order[j] == k);
    } else {
        let i = choose|i: int| 0 <= i < j && i < order.len() && #[trigger] order[i] == k;
        assert(0 <= i < j + 1 && order[i] == k);
    }
}

/// What has arrived among the first `j + 1` arrivals and is not arrival `j`
/// has arrived among the first `j`.
proof fn lemma_named_less(order: Seq<int>, j: int, k: int)
    requires
        0 <= j < order.len(),
        named_within(order, j + 1, k),
        order[j] != k,
    ensures
        named_within(order, j, k),
{
    reveal(named_within);
    let i = choose|i: int| 0 <= i < j + 1 && i < order.len() && #[trigger] order[i] == k;
    assert(0 <= i < j && order[i] == k);
}

/// What has arrived among the first `j` arrivals is one of them.
proof fn lemma_named_where(order: Seq<int>, j: int, k: int) -> (i: int)
    requires
        named_within(order, j, k),
    ensures
        0 <= i < j,
        i < order.len(),
        order[i] == k,
{
    reveal(named_within);
    choose|i: int| 0 <= i < j && i < order.len() && #[trigger] order[i] == k
}

/// In a permutation, arrival `j` has not arrived before.
proof fn lemma_named_fresh(order: Seq<int>, count: int, j: int)
    requires
        is_permutation(order, count),
        0 <= j < count,
    ensures
        !named_within(order, j, order[j]),
{
    reveal(named_within);
    if named_within(order, j, order[j]) {
        let i = choose|i: int| 0 <= i < j && i < order.len() && #[trigger] order[i] == order[j];
        assert(order[i] != order[j]);
    }
}

/// The arrival of the packet that the buffer expects keeps what holds of a
/// shuffled run: the part on the packets that have arrived.
#[verifier::rlimit(30)]
proof fn lemma_deliver_arrived<T>(
    pending: Seq<Entry<T>>,
    first: int,
    sent: Seq<T>,
    order: Seq<int>,
    j: int,
    d: int,
)
    requires
        is_permutation(order, sent.len() as int),
        0 <= j < sent.len(),
        0 <= d < sent.len(),
        order[j] == d,
        forall|a: int, b: int|
            0 <= a < b < pending.len() ==> #[trigger] pending[a].seq < #[trigger] pending[b].seq,
        all_arrived(order, j, d),
        waiting_known(pending, first, sent, order, j, d),
        arrived_wait(pending, first, order, j, d),
    ensures
        ({
            let run = run_len(pending, first + d + 1) as int;
            let d2 = d + 1 + run;
            &&& run <= pending.len()
            &&& d2 <= sent.len()
            &&& all_arrived(order, j + 1, d2)
            &&& d2 < sent.len() ==> !named_within(order, j + 1, d2)
            &&& waiting_known(pending.skip(run), first, sent, order, j + 1, d2)
            &&& arrived_wait(pending.skip(run), first, order, j + 1, d2)
            &&& forall|i: int|
                0 <= i < run ==> (#[trigger] pending[i]).seq == first + d + 1 + i && pending[i].item
                    == sent[d + 1 + i]
        }),
{
    let n = sent.len() as int;
    let from = first + d + 1;
    assert forall|i: int| 0 <= i < pending.len() implies (#[trigger] pending[i]).seq >= from by {}
    lemma_run_len(pending, from);
    let run = run_len(pending, from) as int;
    let d2 = d + 1 + run;
    let rest = pending.skip(run);
    if run > 0 {
        assert(pending[run - 1].seq == from + (run - 1));
        assert(pending[run - 1].seq - first < n);
    }
    assert forall|k: int| 0 <= k < d2 implies #[trigger] named_within(order, j + 1, k) by {
        if k < d {
            assert(named_within(order, j, k));
            lemma_named_more(order, j, k);
        } else if k == d {
            lemma_named_more(order, j, k);
        } else {
            let i = k - d - 1;
            assert(pending[i].seq == from + i);
            assert(named_within(order, j, pending[i].seq - first));
            lemma_named_more(order, j, k);
        }
    }
    if d2 < n && named_within(order, j + 1, d2) {
        lemma_named_less(order, j, d2);
        let i = lemma_named_where(order, j, d2);
        assert(holds_seq(pending, first + order[i]));
        let at = lemma_holds_seq_where(pending, first + d2);
        if at < run {
            assert(pending[at].seq == from + at);
        } else {
            assert(pending[at].seq > from + run);
        }
        assert(false);
    }
    assert forall|i: int| 0 <= i < rest.len() implies d2 < (#[trigger] rest[i]).seq - first < n
        && named_within(order, j + 1, rest[i].seq - first) && rest[i].item == sent[rest[i].seq
        - first] by {
        assert(rest[i] == pending[i + run]);
        assert(pending[i + run].seq > from + run);
        assert(named_within(order, j, pending[i + run].seq - first));
        lemma_named_more(order, j, pending[i + run].seq - first);
    }
    assert forall|i: int| 0 <= i < j + 1 && order[i] > d2 implies holds_seq(
        rest,
        first + #[trigger] order[i],
    ) by {
        assert(i < j);
        assert(holds_seq(pending, first + order[i]));
        let at = lemma_holds_seq_where(pending, first + order[i]);
        if at < run {
            assert(pending[at].seq == from + at);
            assert(false);
        }
        assert(rest[at - run] == pending[at]);
        lemma_holds_seq_at(rest, at - run);
    }
    assert forall|i: int| 0 <= i < run implies (#[trigger] pending[i]).seq == first + d + 1 + i
        && pending[i].item == sent[d + 1 + i] by {
        assert(pending[i].seq == from + i);
    }
}

/// The packets handed on when the expected packet arrives continue the run
/// that has been handed on.
#[verifier::rlimit(30)]
proof fn lemma_deliver_out<T>(
    pending: Seq<Entry<T>>,
    first: int,
    sent: Seq<T>,
    d: int,
    run: int,
    entry: Entry<T>,
)
    requires
        0 <= d,
        0 <= run <= pending.len(),
        d + 1 + run <= sent.len(),
        first + sent.len() <= SEQ_LIMIT,
        0 <= first,
        entry == (Entry { seq: (first + d) as i64, item: sent[d] }),
        forall|i: int|
            0 <= i < run ==> (#[trigger] pending[i]).seq == first + d + 1 + i && pending[i].item
                == sent[d + 1 + i],
    ensures
        in_order(numbered(first, sent.take(d))) + in_order(seq![entry] + pending.take(run))
            == in_order(numbered(first, sent.take(d + 1 + run))),
{
    let d2 = d + 1 + run;
    let out = in_order(numbered(first, sent.take(d)));
    let handed = seq![entry] + pending.take(run);
    let more = in_order(handed);
    let all = in_order(numbered(first, sent.take(d2)));
    assert((out + more).len() == d2);
    assert forall|k: int| 0 <= k < d2 implies (out + more)[k] == all[k] by {
        if k < d {
            assert((out + more)[k] == out[k]);
            assert(sent.take(d)[k] == sent.take(d2)[k]);
        } else if k == d {
            assert((out + more)[k] == more[0]);
            assert(handed[0] == entry);
        } else {
            let i = k - d - 1;
            assert((out + more)[k] == more[i + 1]);
            assert(handed[i + 1] == pending[i]);
            assert(pending[i].seq == first + d + 1 + i);
        }
    }
    assert(out + more =~= all);
}

/// The arrival of a packet that has to wait keeps what holds of a shuffled
/// run: the part on the packets that have arrived.
#[verifier::rlimit(30)]
proof fn lemma_wait_arrived<T>(
    pending: Seq<Entry<T>>,
    first: int,
    sent: Seq<T>,
    order: Seq<int>,
    j: int,
    d: int,
    entry: Entry<T>,
)
    requires
        is_permutation(order, sent.len() as int),
        0 <= j < sent.len(),
        0 <= d < order[j],
        0 <= first,
        first + sent.len() <= SEQ_LIMIT,
        sent.len() <= SEQ_HALF_RANGE,
        entry == (Entry { seq: (first + order[j]) as i64, item: sent[order[j]] }),
        ordered_after(pending, first + d),
        all_arrived(order, j, d),
        !named_within(order, j, d),
        waiting_known(pending, first, sent, order, j, d),
        arrived_wait(pending, first, order, j, d),
    ensures
        !holds_seq(pending, first + order[j]),
        pending.len() < sent.len(),
        ({
            let grown = pending.insert(rank(pending, first + order[j]) as int, entry);
            &&& all_arrived(order, j + 1, d)
            &&& !named_within(order, j + 1, d)
            &&& waiting_known(grown, first, sent, order, j + 1, d)
            &&& arrived_wait(grown, first, order, j + 1, d)
        }),
{
    let n = sent.len() as int;
    let o = order[j];
    let seq = first + o;
    lemma_named_fresh(order, n, j);
    if holds_seq(pending, seq) {
        let at = lemma_holds_seq_where(pending, seq);
        assert(named_within(order, j, pending[at].seq - first));
        assert(false);
    }
    assert forall|i: int| 0 <= i < pending.len() implies first + d < (#[trigger] pending[i]).seq
        < first + n by {}
    lemma_ordered_len(pending, first + d, first + n);
    lemma_insert_ordered(pending, first + d, entry);
    let at = rank(pending, seq) as int;
    let grown = pending.insert(at, entry);
    if named_within(order, j + 1, d) {
        lemma_named_less(order, j, d);
    }
    assert forall|k: int| 0 <= k < d implies #[trigger] named_within(order, j + 1, k) by {
        assert(named_within(order, j, k));
        lemma_named_more(order, j, k);
    }
    assert forall|i: int| 0 <= i < grown.len() implies d < (#[trigger] grown[i]).seq - first < n
        && named_within(order, j + 1, grown[i].seq - first) && grown[i].item == sent[grown[i].seq
        - first] by {
        if i < at {
            assert(grown[i] == pending[i]);
            assert(named_within(order, j, pending[i].seq - first));
            lemma_named_more(order, j, pending[i].seq - first);
        } else if i == at {
            assert(grown[i] == entry);
            lemma_named_more(order, j, o);
        } else {
            assert(grown[i] == pending[i - 1]);
            assert(named_within(order, j, pending[i - 1].seq - first));
            lemma_named_more(order, j, pending[i - 1].seq - first);
        }
    }
    assert forall|i: int| 0 <= i < j + 1 && order[i] > d implies holds_seq(
        grown,
        first + #[trigger] order[i],
    ) by {
        if i == j {
            assert(grown[at].seq == first + order[i]);
            lemma_holds_seq_at(grown, at);
        } else {
            assert(holds_seq(pending, first + order[i]));
            let was = lemma_holds_seq_where(pending, first + order[i]);
            if was < at {
                assert(grown[was] == pending[was]);
                lemma_holds_seq_at(grown, was);
            } else {
                assert(grown[was + 1] == pending[was]);
                lemma_holds_seq_at(grown, was + 1);
            }
        }
    }
}

/// One more arrival of a shuffled run keeps what holds of the run.
#[verifier::rlimit(30)]
proof fn lemma_shuffle_step<T>(
    m: ReorderModel<T>,
    sent: Seq<T>,
    order: Seq<int>,
    times: Seq<u64>,
    j: int,
    state: ReorderModel<T>,
    out: Seq<Delivery<T>>,
)
    requires
        shuffle_pre(m, sent, order, times),
        0 <= j < sent.len(),
        shuffle_inv(m, sent, order, j, state, out),
    ensures
        ({
            let a = arrivals_of(m.next_expected, sent, order, times)[j];
            let (next, more) = state.spec_push(a.now_ms, a.wire, a.item);
            shuffle_inv(m, sent, order, j + 1, next, out + more)
        }),
{
    let first = m.next_expected;
    let n = sent.len() as int;
    let d = state.next_expected - first;
    let o = order[j];
    let a = arrivals_of(first, sent, order, times)[j];
    let (next, more) = state.spec_push(a.now_ms, a.wire, a.item);
    let seq = spec_extend_seq(state.next_expected, a.wire as int);
    assert(0 <= o < n);
    assert(seq == first + o) by {
        lemma_extend_seq_of_close(state.next_expected, first + o);
    }
    lemma_push_wf(state, a.now_ms, a.wire, a.item);
    lemma_named_fresh(order, n, j);
    assert(o >= d) by {
        if o < d {
            assert(named_within(order, j, o));
        }
    }
    let entry = Entry { seq: seq as i64, item: a.item };
    assert(a.item == sent[o]);
    if o == d {
        lemma_deliver_arrived(state.pending, first, sent, order, j, d);
        let run = run_len(state.pending, seq + 1) as int;
        lemma_deliver_out(state.pending, first, sent, d, run, entry);
        assert(next.next_expected == first + d + 1 + run);
        assert(next.pending == state.pending.skip(run));
        assert(more == in_order(seq![entry] + state.pending.take(run)));
    } else {
        lemma_wait_arrived(state.pending, first, sent, order, j, d, entry);
        assert(next.next_expected == state.next_expected);
        assert(more =~= Seq::<Delivery<T>>::empty());
        assert(out + more =~= out);
    }
}

/// What holds of a shuffled run holds after any number of its arrivals.
#[verifier::rlimit(30)]
proof fn lemma_shuffle_prefix<T>(
    m: ReorderModel<T>,
    sent: Seq<T>,
    order: Seq<int>,
    times: Seq<u64>,
    j: int,
)
    requires
        shuffle_pre(m, sent, order, times),
        0 <= j <= sent.len(),
    ensures
        ({
            let (state, out) = m.spec_push_all(
                arrivals_of(m.next_expected, sent, order, times).take(j),
            );
            shuffle_inv(m, sent, order, j, state, out)
        }),
    decreases j,
{
    let arrivals = arrivals_of(m.next_expected, sent, order, times);
    if j == 0 {
        assert(arrivals.take(0) =~= Seq::<Arrival<T>>::empty());
        assert(sent.take(0) =~= Seq::<T>::empty());
        assert(m.spec_push_all(arrivals.take(0)) == (m, Seq::<Delivery<T>>::empty()));
        assert(!named_within(order, 0, 0)) by {
            reveal(named_within);
        }
        assert(in_order(numbered(m.next_expected, sent.take(0))) =~= Seq::<Delivery<T>>::empty());
    } else {
        lemma_shuffle_prefix(m, sent, order, times, j - 1);
        let (state, out) = m.spec_push_all(arrivals.take(j - 1));
        lemma_shuffle_step(m, sent, order, times, j - 1, state, out);
        assert(arrivals.take(j).drop_last() =~= arrivals.take(j - 1));
        assert(arrivals.take(j).last() == arrivals[j - 1]);
    }
}

/// Packets that carry the sequence numbers of a range without a gap, and
/// arrive each once and in any order, are handed on in the order of their
/// numbers and without loss, if the buffer expects the first of the range, no
/// packet waits in it and as many packets as the range has may wait.
///
/// `sent` are the packets in the order of their numbers, and `order` says
/// which of them arrives first, which second and so on.
#[verifier::rlimit(30)]
pub proof fn lemma_shuffled_run_in_order<T>(
    m: ReorderModel<T>,
    sent: Seq<T>,
    order: Seq<int>,
    times: Seq<u64>,
)
    requires
        m.wf(),
        m.pending.len() == 0,
        m.next_expected + sent.len() <= SEQ_LIMIT,
        sent.len() <= m.max_reorder,
        sent.len() <= SEQ_HALF_RANGE,
        times.len() == sent.len(),
        is_permutation(order, sent.len() as int),
    ensures
        m.spec_push_all(arrivals_of(m.next_expected, sent, order, times)) == (
            ReorderModel {
                next_expected: m.next_expected + sent.len(),
                delivered_any: m.delivered_any || sent.len() > 0,
                ..m
            },
            in_order(numbered(m.next_expected, sent)),
        ),
{
    let n = sent.len() as int;
    let arrivals = arrivals_of(m.next_expected, sent, order, times);
    lemma_shuffle_prefix(m, sent, order, times, n);
    assert(arrivals.take(n) =~= arrivals);
    let (state, out) = m.spec_push_all(arrivals);
    let d = state.next_expected - m.next_expected;
    if d < n {
        assert(named_within(order, n, d));
    }
    assert(d == n);
    assert(sent.take(n) =~= sent);
    if state.pending.len() > 0 {
        assert(state.pending[0].seq - m.next_expected < n);
    }
    assert(state.pending =~= m.pending);
    assert(state.waiting_since == m.waiting_since);
}

/// The packets `sent`, numbered from `first` on, as they arrive one after
/// the other in the order of their numbers, at the times `times`.
pub open spec fn arrivals_in_order<T>(first: int, sent: Seq<T>, times: Seq<u64>) -> Seq<Arrival<T>> {
    Seq::new(
        sent.len(),
        |j: int|
            Arrival {
                now_ms: times[j],
                wire: ((first + j) % (SEQ_RANGE as int)) as u16,
                item: sent[j],
            },
    )
}

/// Packets that arrive after others have the same effect as if the buffer
/// had started where the others left it.
pub proof fn lemma_push_all_concat<T>(
    m: ReorderModel<T>,
    earlier: Seq<Arrival<T>>,
    later: Seq<Arrival<T>>,
)
    ensures
        m.spec_push_all(earlier + later) == ({
            let (between, out) = m.spec_push_all(earlier);
            let (after, more) = between.spec_push_all(later);
            (after, out + more)
        }),
    decreases later.len(),
{
    let (between, out) = m.spec_push_all(earlier);
    if later.len() == 0 {
        assert(earlier + later =~= earlier);
        assert(out + Seq::<Delivery<T>>::empty() =~= out);
    } else {
        lemma_push_all_concat(m, earlier, later.drop_last());
        assert((earlier + later).drop_last() =~= earlier + later.drop_last());
        assert((earlier + later).last() == later.last());
        let (a1, o1) = between.spec_push_all(later.drop_last());
        let last = later.last();
        let (a2, o2) = a1.spec_push(last.now_ms, last.wire, last.item);
        assert((out + o1) + o2 =~= out + (o1 + o2));
    }
}

/// Packets that arrive in the order of their numbers at a buffer that
/// expects the first of them, and in which no packet waits, are handed on
/// as they arrive and without loss.
#[verifier::rlimit(30)]
pub proof fn lemma_in_order_run<T>(m: ReorderModel<T>, sent: Seq<T>, times: Seq<u64>)
    requires
        m.wf(),
        m.pending.len() == 0,
        m.next_expected + sent.len() <= SEQ_LIMIT,
        times.len() == sent.len(),
    ensures
        m.spec_push_all(arrivals_in_order(m.next_expected, sent, times)) == (
            ReorderModel {
                next_expected: m.next_expected + sent.len(),
                delivered_any: m.delivered_any || sent.len() > 0,
                ..m
            },
            in_order(numbered(m.next_expected, sent)),
        ),
    decreases sent.len(),
{
    let first = m.next_expected;
    let arrivals = arrivals_in_order(first, sent, times);
    if sent.len() == 0 {
        assert(in_order(numbered(first, sent)) =~= Seq::<Delivery<T>>::empty());
    } else {
        let n = sent.len() as int;
        lemma_in_order_run(m, sent.drop_last(), times.drop_last());
        assert(arrivals.drop_last() =~= arrivals_in_order(
            first,
            sent.drop_last(),
            times.drop_last(),
        ));
        let (state, out) = m.spec_push_all(arrivals.drop_last());
        let last = arrivals.last();
        assert(state.pending =~= Seq::<Entry<T>>::empty());
        assert(state.next_expected == first + n - 1);
        lemma_extend_seq_of_close(state.next_expected, first + n - 1);
        let (after, more) = state.spec_push(last.now_ms, last.wire, last.item);
        let entry = Entry { seq: (first + n - 1) as i64, item: last.item };
        assert(run_len(state.pending, first + n) == 0);
        assert(state.pending.take(0) =~= Seq::<Entry<T>>::empty());
        assert(state.pending.skip(0) =~= state.pending);
        assert(seq![entry] + state.pending.take(0) =~= seq![entry]);
        assert(more == in_order(seq![entry]));
        assert(out + more =~= in_order(numbered(first, sent))) by {
            assert forall|k: int| 0 <= k < n implies (out + more)[k] == in_order(
                numbered(first, sent),
            )[k] by {
                if k < n - 1 {
                    assert((out + more)[k] == out[k]);
                    assert(sent.drop_last()[k] == sent[k]);
                } else {
                    assert((out + more)[k] == more[0]);
                }
            }
        }
        assert(after.pending =~= m.pending);
    }
}

/// Packets that arrive in the order of their numbers, `gap` numbers ahead
/// of what the buffer expects, wait one behind the other as long as there
/// is room for them.
#[verifier::rlimit(30)]
proof fn lemma_gap_waiting<T>(m: ReorderModel<T>, gap: int, sent: Seq<T>, times: Seq<u64>, i: int)
    requires
        m.wf(),
        m.pending.len() == 0,
        gap >= 1,
        0 <= i <= sent.len(),
        i <= m.max_reorder,
        gap + i <= SEQ_HALF_RANGE,
        m.next_expected + gap + sent.len() <= SEQ_LIMIT,
        times.len() == sent.len(),
    ensures
        m.spec_push_all(arrivals_in_order(m.next_expected + gap, sent, times).take(i)) == (
            ReorderModel {
                pending: numbered(m.next_expected + gap, sent.take(i)),
                waiting_since: if i > 0 {
                    Some(times[0])
                } else {
                    m.waiting_since
                },
                ..m
            },
            Seq::<Delivery<T>>::empty(),
        ),
    decreases i,
{
    let first = m.next_expected + gap;
    let arrivals = arrivals_in_order(first, sent, times);
    if i == 0 {
        assert(arrivals.take(0) =~= Seq::<Arrival<T>>::empty());
        assert(numbered(first, sent.take(0)) =~= m.pending);
    } else {
        lemma_gap_waiting(m, gap, sent, times, i - 1);
        assert(arrivals.take(i).drop_last() =~= arrivals.take(i - 1));
        let last = arrivals.take(i).last();
        assert(last == arrivals[i - 1]);
        let (state, out) = m.spec_push_all(arrivals.take(i - 1));
        let waiting = numbered(first, sent.take(i - 1));
        assert(state.pending == waiting);
        let seq = first + i - 1;
        lemma_extend_seq_of_close(m.next_expected, seq);
        let entry = Entry { seq: seq as i64, item: sent[i - 1] };
        assert(!holds_seq(waiting, seq)) by {
            if holds_seq(waiting, seq) {
                let at = lemma_holds_seq_where(waiting, seq);
                assert(waiting[at].seq == first + at);
            }
        }
        assert(rank(waiting, seq) == i - 1) by {
            assert forall|k: int| 0 <= k < i - 1 implies (#[trigger] waiting[k]).seq < seq by {}
            super::reorder::lemma_rank_of_split(waiting, seq, i - 1);
        }
        assert(waiting.insert(i - 1, entry) =~= numbered(first, sent.take(i))) by {
            assert forall|k: int| 0 <= k < i implies waiting.insert(i - 1, entry)[k] == numbered(
                first,
                sent.take(i),
            )[k] by {
                if k < i - 1 {
                    assert(sent.take(i - 1)[k] == sent.take(i)[k]);
                }
            }
        }
        assert(out + Seq::<Delivery<T>>::empty() =~= Seq::<Delivery<T>>::empty());
    }
}

/// The packets behind a gap are handed on with the gap as the loss of the
/// first of them and no loss for the others.
pub proof fn lemma_gap_losses<T>(next_expected: int, gap: int, sent: Seq<T>)
    requires
        0 <= next_expected,
        1 <= gap < SEQ_RANGE - 1,
        next_expected + gap + sent.len() <= SEQ_LIMIT,
    ensures
        with_losses(true, next_expected, numbered(next_expected + gap, sent)).len() == sent.len(),
        forall|i: int|
            0 <= i < sent.len() ==> (#[trigger] with_losses(
                true,
                next_expected,
                numbered(next_expected + gap, sent),
            )[i]) == (Delivery {
                seq: (next_expected + gap + i) as i64,
                loss: if i == 0 {
                    gap as u16
                } else {
                    0
                },
                item: sent[i],
            }),
{
}

/// The packets behind a gap, handed on in two parts of which the second
/// follows the first without a gap, are handed on as they would be in one.
proof fn lemma_gap_losses_split<T>(next_expected: int, gap: int, sent: Seq<T>, at: int)
    requires
        0 <= next_expected,
        1 <= gap,
        1 <= at <= sent.len(),
        next_expected + gap + sent.len() <= SEQ_LIMIT,
    ensures
        with_losses(true, next_expected, numbered(next_expected + gap, sent.take(at))) + in_order(
            numbered(next_expected + gap + at, sent.skip(at)),
        ) == with_losses(true, next_expected, numbered(next_expected + gap, sent)),
{
    let first = next_expected + gap;
    let head = with_losses(true, next_expected, numbered(first, sent.take(at)));
    let tail = in_order(numbered(first + at, sent.skip(at)));
    let all = with_losses(true, next_expected, numbered(first, sent));
    assert((head + tail).len() == all.len());
    assert forall|i: int| 0 <= i < all.len() implies (head + tail)[i] == all[i] by {
        if i < at {
            assert((head + tail)[i] == head[i]);
        } else {
            assert((head + tail)[i] == tail[i - at]);
        }
    }
    assert(head + tail =~= all);
}

/// The packet for which there is no room behind a gap makes the buffer
/// hand on all that wait, and itself after them.
#[verifier::rlimit(30)]
proof fn lemma_gap_overflow<T>(m: ReorderModel<T>, gap: int, sent: Seq<T>, times: Seq<u64>)
    requires
        m.wf(),
        m.pending.len() == 0,
        m.delivered_any,
        gap >= 1,
        sent.len() > m.max_reorder,
        gap + m.max_reorder + 1 <= SEQ_HALF_RANGE,
        m.next_expected + gap + sent.len() <= SEQ_LIMIT,
        times.len() == sent.len(),
    ensures
        m.spec_push_all(
            arrivals_in_order(m.next_expected + gap, sent, times).take(m.max_reorder as int + 1),
        ) == (
            ReorderModel {
                next_expected: m.next_expected + gap + m.max_reorder + 1,
                waiting_since: None,
                ..m
            },
            with_losses(
                true,
                m.next_expected,
                numbered(m.next_expected + gap, sent.take(m.max_reorder as int + 1)),
            ),
        ),
{
    let first = m.next_expected + gap;
    let arrivals = arrivals_in_order(first, sent, times);
    let room = m.max_reorder as int;
    lemma_gap_waiting(m, gap, sent, times, room);
    let (held, none) = m.spec_push_all(arrivals.take(room));
    let waiting = numbered(first, sent.take(room));
    assert(held.pending == waiting);
    let a = arrivals[room];
    let seq = first + room;
    lemma_extend_seq_of_close(m.next_expected, seq);
    let entry = Entry { seq: seq as i64, item: sent[room] };
    assert(!holds_seq(waiting, seq)) by {
        if holds_seq(waiting, seq) {
            let at = lemma_holds_seq_where(waiting, seq);
            assert(waiting[at].seq == first + at);
        }
    }
    assert(rank(waiting, seq) == room) by {
        assert forall|k: int| 0 <= k < room implies (#[trigger] waiting[k]).seq < seq by {}
        super::reorder::lemma_rank_of_split(waiting, seq, room);
    }
    let grown = waiting.insert(room, entry);
    assert(grown =~= numbered(first, sent.take(room + 1))) by {
        assert forall|k: int| 0 <= k < room + 1 implies grown[k] == numbered(
            first,
            sent.take(room + 1),
        )[k] by {
            if k < room {
                assert(sent.take(room)[k] == sent.take(room + 1)[k]);
            }
        }
    }
    let (flushed, head) = held.spec_push(a.now_ms, a.wire, a.item);
    assert(spec_extend_seq(held.next_expected, a.wire as int) == seq);
    assert(flushed.pending =~= m.pending);
    let upto = arrivals.take(room + 1);
    assert(upto.drop_last() =~= arrivals.take(room));
    assert(upto.last() == a);
    assert(none + head =~= head);
}

/// Packets behind a gap for all of which there is room wait until the
/// buffer stops waiting, and are then handed on in the order of their
/// numbers, with the gap as the loss of the first of them and no loss for
/// the others.
#[verifier::rlimit(30)]
proof fn lemma_gap_run_waits<T>(m: ReorderModel<T>, gap: int, sent: Seq<T>, times: Seq<u64>)
    requires
        m.wf(),
        m.pending.len() == 0,
        m.delivered_any,
        gap >= 1,
        1 <= sent.len() <= m.max_reorder,
        gap + sent.len() <= SEQ_HALF_RANGE,
        m.next_expected + gap + sent.len() <= SEQ_LIMIT,
        times.len() == sent.len(),
    ensures
        ({
            let (state, out) = m.spec_push_all(
                arrivals_in_order(m.next_expected + gap, sent, times),
            );
            let (end, rest) = state.spec_flush();
            &&& out + rest == with_losses(
                true,
                m.next_expected,
                numbered(m.next_expected + gap, sent),
            )
            &&& end == (ReorderModel {
                next_expected: m.next_expected + gap + sent.len(),
                waiting_since: None,
                ..m
            })
        }),
{
    let first = m.next_expected + gap;
    let n = sent.len() as int;
    let arrivals = arrivals_in_order(first, sent, times);
    lemma_gap_waiting(m, gap, sent, times, n);
    assert(arrivals.take(n) =~= arrivals);
    assert(sent.take(n) =~= sent);
    let (state, out) = m.spec_push_all(arrivals);
    assert(state.pending == numbered(first, sent));
    assert(out =~= Seq::<Delivery<T>>::empty());
    let (end, rest) = state.spec_flush();
    assert(state.pending.last().seq == first + n - 1);
    assert(out + rest =~= rest);
    assert(end.pending =~= m.pending);
}

/// Packets behind a gap for which there is not enough room are handed on
/// when the first of them finds no room, and from then on as they arrive:
/// in the order of their numbers, with the gap as the loss of the first of
/// them and no loss for the others.
#[verifier::rlimit(30)]
proof fn lemma_gap_run_overflows<T>(m: ReorderModel<T>, gap: int, sent: Seq<T>, times: Seq<u64>)
    requires
        m.wf(),
        m.pending.len() == 0,
        m.delivered_any,
        gap >= 1,
        sent.len() > m.max_reorder,
        gap + m.max_reorder + 1 <= SEQ_HALF_RANGE,
        m.next_expected + gap + sent.len() <= SEQ_LIMIT,
        times.len() == sent.len(),
    ensures
        m.spec_push_all(arrivals_in_order(m.next_expected + gap, sent, times)) == (
            ReorderModel {
                next_expected: m.next_expected + gap + sent.len(),
                waiting_since: None,
                ..m
            },
            with_losses(true, m.next_expected, numbered(m.next_expected + gap, sent)),
        ),
{
    let first = m.next_expected + gap;
    let arrivals = arrivals_in_order(first, sent, times);
    let room = m.max_reorder as int;
    lemma_gap_overflow(m, gap, sent, times);
    let upto = arrivals.take(room + 1);
    let (flushed, head) = m.spec_push_all(upto);
    let later_sent = sent.skip(room + 1);
    let later_times = times.skip(room + 1);
    lemma_in_order_run(flushed, later_sent, later_times);
    let later = arrivals_in_order(first + room + 1, later_sent, later_times);
    assert(arrivals.skip(room + 1) =~= later);
    lemma_push_all_concat(m, upto, later);
    assert(upto + later =~= arrivals);
    lemma_gap_losses_split(m.next_expected, gap, sent, room + 1);
}

/// Packets that arrive in the order of their numbers, `gap` numbers ahead
/// of what a buffer expects in which no packet waits, are all handed on
/// when the buffer stops waiting, at the latest, and then in the order of
/// their numbers, with the gap as the loss of the first of them and no loss
/// for the others.
#[verifier::rlimit(30)]
proof fn lemma_gap_run<T>(m: ReorderModel<T>, gap: int, sent: Seq<T>, times: Seq<u64>)
    requires
        m.wf(),
        m.pending.len() == 0,
        m.delivered_any,
        gap >= 1,
        sent.len() >= 1,
        gap + sent.len() <= SEQ_HALF_RANGE || gap + m.max_reorder + 1 <= SEQ_HALF_RANGE,
        m.next_expected + gap + sent.len() <= SEQ_LIMIT,
        times.len() == sent.len(),
    ensures
        ({
            let (state, out) = m.spec_push_all(
                arrivals_in_order(m.next_expected + gap, sent, times),
            );
            let (end, rest) = state.spec_flush();
            &&& out + rest == with_losses(
                true,
                m.next_expected,
                numbered(m.next_expected + gap, sent),
            )
            &&& end == (ReorderModel {
                next_expected: m.next_expected + gap + sent.len(),
                waiting_since: None,
                ..m
            })
        }),
{
    if sent.len() <= m.max_reorder {
        lemma_gap_run_waits(m, gap, sent, times);
    } else {
        lemma_gap_run_overflows(m, gap, sent, times);
        let (state, out) = m.spec_push_all(
            arrivals_in_order(m.next_expected + gap, sent, times),
        );
        let (end, rest) = state.spec_flush();
        assert(rest =~= Seq::<Delivery<T>>::empty());
        assert(out + rest =~= out);
    }
}

/// Packets that arrive in the order of their numbers, with a single gap of
/// `gap` numbers between two of them, are all handed on in that order when
/// the buffer stops waiting, at the latest. The first packet behind the gap
/// carries the gap as its loss, and every other packet carries no loss.
///
/// `before` are the packets before the gap, of which the buffer expects the
/// first, and `behind` are those behind it. There has to be at least one of
/// either. The gap has to be small enough for the numbers behind it to be
/// told from those long before it.
#[verifier::rlimit(30)]
pub proof fn lemma_single_gap<T>(
    m: ReorderModel<T>,
    before: Seq<T>,
    gap: int,
    behind: Seq<T>,
    times_before: Seq<u64>,
    times_behind: Seq<u64>,
)
    requires
        m.wf(),
        m.pending.len() == 0,
        before.len() >= 1,
        behind.len() >= 1,
        gap >= 1,
        gap + behind.len() <= SEQ_HALF_RANGE || gap + m.max_reorder + 1 <= SEQ_HALF_RANGE,
        m.next_expected + before.len() + gap + behind.len() <= SEQ_LIMIT,
        times_before.len() == before.len(),
        times_behind.len() == behind.len(),
    ensures
        ({
            let first = m.next_expected;
            let resumed = first + before.len() + gap;
            let (state, out) = m.spec_push_all(
                arrivals_in_order(first, before, times_before) + arrivals_in_order(
                    resumed,
                    behind,
                    times_behind,
                ),
            );
            let (end, rest) = state.spec_flush();
            let handed = out + rest;
            &&& handed == in_order(numbered(first, before)) + with_losses(
                true,
                first + before.len(),
                numbered(resumed, behind),
            )
            &&& handed.len() == before.len() + behind.len()
            &&& forall|i: int|
                0 <= i < before.len() ==> #[trigger] handed[i] == (Delivery {
                    seq: (first + i) as i64,
                    loss: 0,
                    item: before[i],
                })
            &&& forall|i: int|
                0 <= i < behind.len() ==> #[trigger] handed[before.len() + i] == (Delivery {
                    seq: (resumed + i) as i64,
                    loss: if i == 0 {
                        gap as u16
                    } else {
                        0
                    },
                    item: behind[i],
                })
            &&& end == (ReorderModel {
                next_expected: resumed + behind.len(),
                delivered_any: true,
                waiting_since: None,
                ..m
            })
        }),
{
    let first = m.next_expected;
    let k = before.len() as int;
    let resumed = first + k + gap;
    let early = arrivals_in_order(first, before, times_before);
    let late = arrivals_in_order(resumed, behind, times_behind);
    lemma_in_order_run(m, before, times_before);
    let (mid, head) = m.spec_push_all(early);
    lemma_gap_run(mid, gap, behind, times_behind);
    lemma_push_all_concat(m, early, late);
    let (state, tail) = mid.spec_push_all(late);
    let (end, rest) = state.spec_flush();
    let losses = with_losses(true, first + k, numbered(resumed, behind));
    assert((head + tail) + rest =~= head + (tail + rest));
    lemma_gap_losses(first + k, gap, behind);
    let handed = (head + tail) + rest;
    assert forall|i: int| 0 <= i < k implies #[trigger] handed[i] == (Delivery {
        seq: (first + i) as i64,
        loss: 0,
        item: before[i],
    }) by {
        assert(handed[i] == head[i]);
    }
    assert forall|i: int| 0 <= i < behind.len() implies #[trigger] handed[k + i] == (Delivery {
        seq: (resumed + i) as i64,
        loss: if i == 0 {
            gap as u16
        } else {
            0
        },
        item: behind[i],
    }) by {
        assert(handed[k + i] == losses[i]);
    }
}

} // verus!
