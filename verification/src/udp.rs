//! Choosing the pair of local UDP ports on which a stream's RTP and RTCP
//! packets are received.
//!
//! The RTP port is always even, and the RTCP port is always the following
//! (odd) integer. Binding is left to the caller: after each attempt to bind
//! a port it reports how the attempt ended, and is told what to do next.

use crate::chance::draw;
use crate::text::{decimal, push_decimal};
use vstd::prelude::*;
use vstd::string::StringExecFns;

verus! {

/// How many pairs are tried before giving up.
pub const MAX_TRIES: usize = 10;

/// The lowest port that is drawn for RTP.
pub const ALLOWED_RTP_RANGE_START: u16 = 5000;

/// The end of the ports that are drawn for RTP: the first that is not.
pub const ALLOWED_RTP_RANGE_END: u16 = 65000;

/// How an attempt to bind a port ended.
#[derive(Copy, Clone, Debug, PartialEq, Eq, Structural)]
pub enum BindOutcome {
    /// The port is bound.
    Bound,
    /// The address is in use.
    AddrInUse,
    /// The attempt failed for another reason.
    Failed,
}

/// Where the search for a pair of ports stands, and with it what the caller
/// has to do next.
#[derive(Copy, Clone, Debug, PartialEq, Eq, Structural)]
pub enum PairState {
    /// Bind `rtp_port` for RTP. `failed` pairs were given up before.
    BindRtp { failed: usize, rtp_port: u16 },
    /// RTP is bound on `rtp_port`: bind the next port for RTCP.
    BindRtcp { failed: usize, rtp_port: u16 },
    /// Both ports are bound: RTP on `rtp_port`, RTCP on the next.
    Done { rtp_port: u16 },
    /// Every pair that was tried had a port in use.
    Exhausted,
    /// An attempt failed for another reason than an address in use.
    Failed,
}

/// The even port at or below `drawn`.
pub open spec fn spec_even_port(drawn: u16) -> u16 {
    (drawn - drawn % 2) as u16
}

/// Whether a port can be tried for RTP: it is even and within the allowed
/// range, so that the port for RTCP is the odd one after it.
pub open spec fn is_rtp_port(port: u16) -> bool {
    port % 2 == 0 && ALLOWED_RTP_RANGE_START <= port < ALLOWED_RTP_RANGE_END
}

/// The state in which pair number `failed` is tried, with the port `drawn`
/// for it, unless too many pairs were given up.
pub open spec fn spec_try_pair(failed: int, drawn: u16) -> PairState {
    if failed < MAX_TRIES {
        PairState::BindRtp { failed: failed as usize, rtp_port: spec_even_port(drawn) }
    } else {
        PairState::Exhausted
    }
}

impl PairState {
    /// The states that a search can be in.
    pub open spec fn valid(self) -> bool {
        match self {
            PairState::BindRtp { failed, rtp_port } => failed < MAX_TRIES && is_rtp_port(
                rtp_port,
            ),
            PairState::BindRtcp { failed, rtp_port } => failed < MAX_TRIES && is_rtp_port(
                rtp_port,
            ),
            PairState::Done { rtp_port } => is_rtp_port(rtp_port),
            PairState::Exhausted => true,
            PairState::Failed => true,
        }
    }

    /// Whether the search is over.
    pub open spec fn finished(self) -> bool {
        self is Done || self is Exhausted || self is Failed
    }

    /// The state after an attempt has ended with `outcome`, where `drawn` is
    /// the port that is at hand for another pair.
    ///
    /// A port in use gives the whole pair up, RTP's port too if RTCP's is
    /// the one in use. Any other failure ends the search.
    pub open spec fn spec_next(self, outcome: BindOutcome, drawn: u16) -> PairState {
        match self {
            PairState::BindRtp { failed, rtp_port } => match outcome {
                BindOutcome::Bound => PairState::BindRtcp { failed, rtp_port },
                BindOutcome::AddrInUse => spec_try_pair(failed + 1, drawn),
                BindOutcome::Failed => PairState::Failed,
            },
            PairState::BindRtcp { failed, rtp_port } => match outcome {
                BindOutcome::Bound => PairState::Done { rtp_port },
                BindOutcome::AddrInUse => spec_try_pair(failed + 1, drawn),
                BindOutcome::Failed => PairState::Failed,
            },
            _ => self,
        }
    }

    /// Whether another pair is tried after an attempt has ended with
    /// `outcome`, so that a port has to be drawn for it: the port that was
    /// tried is in use, and fewer than [`MAX_TRIES`] pairs have been given
    /// up with its pair.
    pub open spec fn spec_draws(self, outcome: BindOutcome) -> bool {
        outcome == BindOutcome::AddrInUse && match self {
            PairState::BindRtp { failed, .. } => failed + 1 < MAX_TRIES,
            PairState::BindRtcp { failed, .. } => failed + 1 < MAX_TRIES,
            _ => false,
        }
    }

    /// Whether another pair is tried after an attempt has ended with
    /// `outcome`.
    pub fn draws(&self, outcome: BindOutcome) -> (r: bool)
        requires
            self.valid(),
        ensures
            r == self.spec_draws(outcome),
    {
        match outcome {
            BindOutcome::AddrInUse => match *self {
                PairState::BindRtp { failed, .. } => failed + 1 < MAX_TRIES,
                PairState::BindRtcp { failed, .. } => failed + 1 < MAX_TRIES,
                _ => false,
            },
            _ => false,
        }
    }

    /// The port that the caller has to bind next, if any.
    pub open spec fn spec_port_to_bind(self) -> Option<u16> {
        match self {
            PairState::BindRtp { rtp_port, .. } => Some(rtp_port),
            PairState::BindRtcp { rtp_port, .. } => Some((rtp_port + 1) as u16),
            _ => None,
        }
    }

    /// The port that the caller has to bind next, if any.
    pub fn port_to_bind(&self) -> (r: Option<u16>)
        requires
            self.valid(),
        ensures
            r == self.spec_port_to_bind(),
            r is None <==> self.finished(),
    {
        match *self {
            PairState::BindRtp { rtp_port, .. } => Some(rtp_port),
            PairState::BindRtcp { rtp_port, .. } => Some(rtp_port + 1),
            _ => None,
        }
    }
}

/// The even port at or below `drawn`.
pub fn even_port(drawn: u16) -> (r: u16)
    ensures
        r == spec_even_port(drawn),
        r % 2 == 0,
        r <= drawn < r + 2,
{
    let r: u16 = drawn & !0b1;
    assert(drawn & !0b1 == drawn - drawn % 2) by (bit_vector);
    r
}

/// Starts with pair number `failed`, on the port `drawn`, unless too many
/// pairs were given up.
pub fn try_pair(failed: usize, drawn: u16) -> (r: PairState)
    requires
        ALLOWED_RTP_RANGE_START <= drawn < ALLOWED_RTP_RANGE_END,
    ensures
        r == spec_try_pair(failed as int, drawn),
        r.valid(),
{
    if failed < MAX_TRIES {
        PairState::BindRtp { failed, rtp_port: even_port(drawn) }
    } else {
        PairState::Exhausted
    }
}

/// The state after an attempt has ended with `outcome`, where `drawn` is the
/// port that is at hand for another pair.
pub fn next_with(state: PairState, outcome: BindOutcome, drawn: u16) -> (r: PairState)
    requires
        state.valid(),
        ALLOWED_RTP_RANGE_START <= drawn < ALLOWED_RTP_RANGE_END,
    ensures
        r == state.spec_next(outcome, drawn),
        r.valid(),
{
    match state {
        PairState::BindRtp { failed, rtp_port } => match outcome {
            BindOutcome::Bound => PairState::BindRtcp { failed, rtp_port },
            BindOutcome::AddrInUse => try_pair(failed + 1, drawn),
            BindOutcome::Failed => PairState::Failed,
        },
        PairState::BindRtcp { failed, rtp_port } => match outcome {
            BindOutcome::Bound => PairState::Done { rtp_port },
            BindOutcome::AddrInUse => try_pair(failed + 1, drawn),
            BindOutcome::Failed => PairState::Failed,
        },
        _ => state,
    }
}

/// The state after an attempt has ended with `outcome`, where no other pair
/// is tried after it: no port is at hand, and none is needed.
pub fn next_without(state: PairState, outcome: BindOutcome) -> (r: PairState)
    requires
        state.valid(),
        !state.spec_draws(outcome),
    ensures
        forall|drawn: u16| r == #[trigger] state.spec_next(outcome, drawn),
        r.valid(),
{
    match state {
        PairState::BindRtp { failed, rtp_port } => match outcome {
            BindOutcome::Bound => PairState::BindRtcp { failed, rtp_port },
            BindOutcome::AddrInUse => PairState::Exhausted,
            BindOutcome::Failed => PairState::Failed,
        },
        PairState::BindRtcp { rtp_port, .. } => match outcome {
            BindOutcome::Bound => PairState::Done { rtp_port },
            BindOutcome::AddrInUse => PairState::Exhausted,
            BindOutcome::Failed => PairState::Failed,
        },
        _ => state,
    }
}

/// The search for a pair of local UDP ports for RTP and RTCP.
#[derive(Copy, Clone, Debug)]
pub struct PairSearch {
    state: PairState,
}

impl View for PairSearch {
    type V = PairState;

    closed spec fn view(&self) -> PairState {
        self.state
    }
}

impl PairSearch {
    #[verifier::type_invariant]
    spec fn well_formed(self) -> bool {
        self.state.valid()
    }

    /// Starts a search: the first pair is to be tried, on a port that is
    /// drawn at random.
    pub fn start() -> (r: PairSearch)
        ensures
            r@.valid(),
            r@ matches PairState::BindRtp { failed, .. } && failed == 0,
    {
        let drawn: u16 = draw(ALLOWED_RTP_RANGE_START, ALLOWED_RTP_RANGE_END);
        PairSearch { state: try_pair(0, drawn) }
    }

    /// Where the search stands.
    pub fn state(&self) -> (r: PairState)
        ensures
            r == self@,
            r.valid(),
    {
        proof {
            use_type_invariant(self);
        }
        self.state
    }

    /// Takes note of how the attempt to bind the port of the current state
    /// ended. Only where another pair has to be tried is a port drawn at
    /// random: the new state is then the one that follows for some port of
    /// the allowed range. Else the new state is the one that follows
    /// whatever the port.
    pub fn next(&mut self, outcome: BindOutcome)
        ensures
            final(self)@.valid(),
            old(self)@.spec_draws(outcome) ==> exists|drawn: u16|
                ALLOWED_RTP_RANGE_START <= drawn < ALLOWED_RTP_RANGE_END && final(self)@
                    == #[trigger] old(self)@.spec_next(outcome, drawn),
            !old(self)@.spec_draws(outcome) ==> forall|drawn: u16|
                final(self)@ == #[trigger] old(self)@.spec_next(outcome, drawn),
    {
        proof {
            use_type_invariant(&*self);
        }
        if self.state.draws(outcome) {
            let drawn: u16 = draw(ALLOWED_RTP_RANGE_START, ALLOWED_RTP_RANGE_END);
            self.state = next_with(self.state, outcome, drawn);
            assert(self@ == old(self)@.spec_next(outcome, drawn));
        } else {
            self.state = next_without(self.state, outcome);
        }
    }
}

/// What is said when every pair that was tried had a port in use.
pub open spec fn spec_exhausted_text(ip_addr: Seq<char>) -> Seq<char> {
    "Unable to find even/odd pair in "@ + ip_addr + ":"@ + decimal(
        ALLOWED_RTP_RANGE_START as nat,
    ) + ".."@ + decimal(ALLOWED_RTP_RANGE_END as nat) + " after "@ + decimal(MAX_TRIES as nat)
        + " tries"@
}

/// Says that no pair of ports was found on the address that `ip_addr` is the
/// printed form of.
pub fn exhausted_text(ip_addr: &str) -> (r: String)
    ensures
        r@ == spec_exhausted_text(ip_addr@),
{
    let mut out = String::from_str("Unable to find even/odd pair in ");
    out.append(ip_addr);
    out.append(":");
    push_decimal(&mut out, ALLOWED_RTP_RANGE_START as u64);
    out.append("..");
    push_decimal(&mut out, ALLOWED_RTP_RANGE_END as u64);
    out.append(" after ");
    push_decimal(&mut out, MAX_TRIES as u64);
    out.append(" tries");
    assert(out@ =~= spec_exhausted_text(ip_addr@));
    out
}

/// Whatever the outcomes and the ports drawn, a search stays in a valid
/// state: a port that is tried for RTP is even and within the allowed range,
/// the port that is tried for RTCP is the one after it, and no more than
/// [`MAX_TRIES`] pairs are tried. A search is done only when the port for
/// RTCP is bound after the one for RTP, and a search that is over stays as
/// it is.
pub proof fn lemma_next_keeps_valid(state: PairState, outcome: BindOutcome, drawn: u16)
    requires
        state.valid(),
        ALLOWED_RTP_RANGE_START <= drawn < ALLOWED_RTP_RANGE_END,
    ensures
        state.spec_next(outcome, drawn).valid(),
        state.spec_next(outcome, drawn) matches PairState::BindRtcp { rtp_port, .. }
            ==> rtp_port % 2 == 0 && state.spec_next(outcome, drawn).spec_port_to_bind() == Some(
            (rtp_port + 1) as u16,
        ),
        !state.finished() && state.spec_next(outcome, drawn) is Done ==> outcome
            == BindOutcome::Bound && state is BindRtcp && state->BindRtcp_rtp_port
            == state.spec_next(outcome, drawn)->Done_rtp_port,
        state.finished() ==> state.spec_next(outcome, drawn) == state,
{
}

} // verus!
