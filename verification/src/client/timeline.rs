//! The clock of one stream: the 32-bit timestamps of its packets, extended
//! to 64 bits across their wraparounds.

use crate::timestamp::{Timestamp, TimestampModel};
use vstd::prelude::*;

verus! {

/// Half the range of timestamps on the wire.
pub const TS_HALF_RANGE: i64 = 0x8000_0000;

/// The range of timestamps on the wire.
pub const TS_RANGE: i64 = 0x1_0000_0000;

/// The extended timestamp up to which a timeline goes on.
pub const TS_LIMIT: i64 = 0x7FFF_FFFE_0000_0000;

/// The extended form of the timestamp `wire`: of the numbers that end in
/// the same 32 bits, the one closest to `highest`. Of two that are equally
/// close, it is the earlier.
pub open spec fn spec_extend_timestamp(highest: int, wire: int) -> int {
    highest + (wire - highest + TS_HALF_RANGE) % (TS_RANGE as int) - TS_HALF_RANGE
}

/// The state of a [`Timeline`].
pub struct TimelineModel {
    /// Ticks per second.
    pub clock_rate: int,
    /// The tick at which the stream started.
    pub start: int,
    /// The highest extended timestamp so far, or the start before the first.
    pub highest: int,
}

impl TimelineModel {
    /// What holds of every timeline: its clock runs, and it has not gone
    /// back behind its start.
    pub open spec fn wf(self) -> bool {
        &&& 0 < self.clock_rate <= u32::MAX
        &&& 0 <= self.start <= u32::MAX
        &&& self.start <= self.highest <= i64::MAX
    }

    /// Whether the timeline can go on: its timestamps are below
    /// [`TS_LIMIT`].
    pub open spec fn has_room(self) -> bool {
        self.highest <= TS_LIMIT
    }

    /// The timeline of a stream that starts at `start`, if its clock runs.
    pub open spec fn spec_new(start: u32, clock_rate: u32) -> Option<TimelineModel> {
        if clock_rate > 0 {
            Some(
                TimelineModel {
                    clock_rate: clock_rate as int,
                    start: start as int,
                    highest: start as int,
                },
            )
        } else {
            None
        }
    }

    /// The timeline after a packet with the timestamp `wire`, and the
    /// timestamp that the packet is given: the one closest to the highest
    /// so far. Only a higher timestamp moves the timeline on.
    pub open spec fn spec_advance(self, wire: u32) -> (TimelineModel, TimestampModel) {
        let extended = spec_extend_timestamp(self.highest, wire as int);
        (
            TimelineModel {
                highest: if extended > self.highest {
                    extended
                } else {
                    self.highest
                },
                ..self
            },
            TimestampModel { timestamp: extended, clock_rate: self.clock_rate, start: self.start },
        )
    }
}

/// The extended form of a timestamp lies within half the wire's range of
/// the highest so far, the earlier end included and the later not, and ends
/// in the same 32 bits.
pub proof fn lemma_extend_timestamp(highest: int, wire: int)
    requires
        0 <= wire < TS_RANGE,
    ensures
        highest - TS_HALF_RANGE <= spec_extend_timestamp(highest, wire) < highest + TS_HALF_RANGE,
        spec_extend_timestamp(highest, wire) % (TS_RANGE as int) == wire,
{
    let r: int = TS_RANGE as int;
    let q: int = (wire - highest + TS_HALF_RANGE) / r;
    vstd::arithmetic::div_mod::lemma_fundamental_div_mod(wire - highest + TS_HALF_RANGE, r);
    let e: int = spec_extend_timestamp(highest, wire);
    assert(e == wire - r * q);
    vstd::arithmetic::div_mod::lemma_mod_multiples_vanish(-q, wire, r);
    assert(r * (-q) == -(r * q)) by (nonlinear_arith);
    vstd::arithmetic::div_mod::lemma_small_mod(wire as nat, r as nat);
}

/// The clock of one stream.
#[derive(Copy, Clone, Debug)]
pub struct Timeline {
    clock_rate: u32,
    start: u32,
    highest: i64,
}

impl View for Timeline {
    type V = TimelineModel;

    closed spec fn view(&self) -> TimelineModel {
        TimelineModel {
            clock_rate: self.clock_rate as int,
            start: self.start as int,
            highest: self.highest as int,
        }
    }
}

impl Timeline {
    #[verifier::type_invariant]
    spec fn well_formed(self) -> bool {
        self@.wf()
    }

    /// The timeline of a stream that starts at `start` on a clock of
    /// `clock_rate` ticks per second, unless the clock rate is zero.
    pub fn new(start: u32, clock_rate: u32) -> (r: Option<Timeline>)
        ensures
            match TimelineModel::spec_new(start, clock_rate) {
                Some(m) => r.is_some() && r.unwrap()@ == m && m.wf() && m.has_room(),
                None => r.is_none(),
            },
    {
        if clock_rate == 0 {
            None
        } else {
            Some(Timeline { clock_rate, start, highest: start as i64 })
        }
    }

    /// Ticks per second.
    pub fn clock_rate(&self) -> (r: u32)
        ensures
            r == self@.clock_rate,
            self@.wf(),
    {
        proof {
            use_type_invariant(self);
        }
        self.clock_rate
    }

    /// The highest extended timestamp so far, or the start before the first.
    pub fn highest(&self) -> (r: i64)
        ensures
            r == self@.highest,
            self@.wf(),
    {
        proof {
            use_type_invariant(self);
        }
        self.highest
    }

    /// Whether the timeline can go on.
    pub fn has_room(&self) -> (r: bool)
        ensures
            r == self@.has_room(),
            self@.wf(),
    {
        proof {
            use_type_invariant(self);
        }
        self.highest <= TS_LIMIT
    }

    /// Finds the place of the timestamp `wire` on the timeline, and leaves
    /// the timeline as it is.
    pub fn place(&self, wire: u32) -> (r: Timestamp)
        requires
            self@.has_room(),
        ensures
            r@ == self@.spec_advance(wire).1,
            r@.valid(),
    {
        let mut copy = *self;
        copy.advance(wire)
    }

    /// Places the timestamp `wire` of a packet on the timeline.
    pub fn advance(&mut self, wire: u32) -> (r: Timestamp)
        requires
            old(self)@.has_room(),
        ensures
            old(self)@.wf(),
            final(self)@.wf(),
            (final(self)@, r@) == old(self)@.spec_advance(wire),
            r@.valid(),
            old(self)@.highest <= final(self)@.highest < old(self)@.highest + TS_HALF_RANGE,
    {
        proof {
            use_type_invariant(&*self);
        }
        let low: i64 = self.highest % TS_RANGE;
        let ahead: i64 = (wire as i64 + TS_RANGE + TS_HALF_RANGE - low) % TS_RANGE;
        proof {
            let r: int = TS_RANGE as int;
            let q: int = self.highest as int / r;
            vstd::arithmetic::div_mod::lemma_fundamental_div_mod(self.highest as int, r);
            let x: int = wire as int - self.highest as int + TS_HALF_RANGE as int;
            assert(wire as int + r + TS_HALF_RANGE as int - low as int == x + r * (q + 1))
                by (nonlinear_arith)
                requires
                    x == wire as int - self.highest as int + TS_HALF_RANGE as int,
                    self.highest as int == r * q + low as int,
            ;
            vstd::arithmetic::div_mod::lemma_mod_multiples_vanish(q + 1, x, r);
            lemma_extend_timestamp(self.highest as int, wire as int);
        }
        let extended: i64 = self.highest + ahead - TS_HALF_RANGE;
        if extended > self.highest {
            self.highest = extended;
        }
        match Timestamp::new(extended, self.clock_rate, self.start) {
            Some(timestamp) => timestamp,
            None => {
                proof {
                    assert(false);
                }
                vstd::pervasive::unreached()
            },
        }
    }
}

} // verus!
