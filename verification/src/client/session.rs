//! The RTSP dialog of a session: which request may follow which, what is
//! made of the answers to DESCRIBE and SETUP, and how streams are carried.
//!
//! Nothing here sends or receives. The caller does, and reports what came
//! back.

use crate::error::ErrorKind;
use crate::text::{decimal, push_decimal};
use vstd::prelude::*;
use vstd::string::StringExecFns;

verus! {

/// For how many milliseconds the answer to TEARDOWN is waited for when a
/// session is dropped.
pub const TEARDOWN_DEADLINE_MS: u64 = 2_000;

/// How far the dialog of a session has come.
#[derive(Copy, Clone, Debug, PartialEq, Eq, Structural)]
pub enum Phase {
    /// Nothing is known of the presentation yet.
    Init,
    /// The presentation has been described.
    Described,
    /// `streams` streams have been set up, at least one.
    SetUp { streams: usize },
    /// The streams play.
    Playing,
    /// The session has been torn down.
    Teardown,
    /// The session has failed.
    Error,
}

/// How the packets of a stream are carried.
#[derive(Copy, Clone, Debug, PartialEq, Eq, Structural)]
pub enum Transport {
    /// Over UDP, to a pair of local ports.
    Udp { rtp_port: u16, rtcp_port: u16 },
    /// Interleaved with the RTSP messages on their connection, on a pair of
    /// channels.
    Tcp { rtp_channel: u8, rtcp_channel: u8 },
    /// Over UDP, to a group that the server names.
    UdpMulticast,
}

/// The pair of channels for the stream that is set up after `streams`
/// others: twice that number for RTP, and the next for RTCP. There is none
/// beyond channel 255.
pub open spec fn spec_interleaved_channels(streams: usize) -> Option<(u8, u8)> {
    if 2 * streams + 1 <= u8::MAX {
        Some(((2 * streams) as u8, (2 * streams + 1) as u8))
    } else {
        None
    }
}

/// The pair of channels for the stream that is set up after `streams`
/// others.
pub fn interleaved_channels(streams: usize) -> (r: Option<(u8, u8)>)
    ensures
        r == spec_interleaved_channels(streams),
{
    if streams <= 127 {
        Some(((2 * streams) as u8, (2 * streams + 1) as u8))
    } else {
        None
    }
}

/// The stream that the channel `channel_id` belongs to, counted in the
/// order in which the streams were set up, and whether the channel carries
/// the stream's RTCP packets rather than its RTP packets.
pub open spec fn spec_channel_stream(channel_id: u8) -> (usize, bool) {
    ((channel_id / 2) as usize, channel_id % 2 == 1)
}

/// The stream that the channel `channel_id` belongs to, and whether the
/// channel carries the stream's RTCP packets.
pub fn channel_stream(channel_id: u8) -> (r: (usize, bool))
    ensures
        r == spec_channel_stream(channel_id),
{
    ((channel_id / 2) as usize, channel_id % 2 == 1)
}

/// Each stream's channels lead back to the stream: the first as the one for
/// RTP, the second as the one for RTCP. Every channel is one of some
/// stream's.
pub proof fn lemma_channels_of_streams(streams: usize, channel_id: u8)
    ensures
        spec_interleaved_channels(streams) matches Some((rtp, rtcp)) ==> spec_channel_stream(rtp)
            == (streams, false) && spec_channel_stream(rtcp) == (streams, true),
        spec_interleaved_channels(spec_channel_stream(channel_id).0) matches Some((rtp, rtcp))
            && (channel_id == rtp || channel_id == rtcp),
{
}

/// Whether the transport that a server answers with is the one that was
/// asked for: of the same kind, and to the same ports or on the same
/// channels. Other channels are let pass where `allow_lax_interleaved_channels`
/// says so.
pub open spec fn spec_transport_matches(
    requested: Transport,
    answered: Transport,
    allow_lax_interleaved_channels: bool,
) -> bool {
    match (requested, answered) {
        (Transport::Udp { rtp_port, rtcp_port }, Transport::Udp { rtp_port: rtp, rtcp_port: rtcp }) =>
            rtp_port == rtp && rtcp_port == rtcp,
        (
            Transport::Tcp { rtp_channel, rtcp_channel },
            Transport::Tcp { rtp_channel: rtp, rtcp_channel: rtcp },
        ) => allow_lax_interleaved_channels || (rtp_channel == rtp && rtcp_channel == rtcp),
        (Transport::UdpMulticast, Transport::UdpMulticast) => true,
        _ => false,
    }
}

/// Whether the transport that a server answers with is the one that was
/// asked for.
pub fn transport_matches(
    requested: Transport,
    answered: Transport,
    allow_lax_interleaved_channels: bool,
) -> (r: bool)
    ensures
        r == spec_transport_matches(requested, answered, allow_lax_interleaved_channels),
{
    match requested {
        Transport::Udp { rtp_port, rtcp_port } => match answered {
            Transport::Udp { rtp_port: rtp, rtcp_port: rtcp } => rtp_port == rtp && rtcp_port
                == rtcp,
            _ => false,
        },
        Transport::Tcp { rtp_channel, rtcp_channel } => match answered {
            Transport::Tcp { rtp_channel: rtp, rtcp_channel: rtcp } =>
                allow_lax_interleaved_channels || (rtp_channel == rtp && rtcp_channel == rtcp),
            _ => false,
        },
        Transport::UdpMulticast => match answered {
            Transport::UdpMulticast => true,
            _ => false,
        },
    }
}

/// The value of the `Transport` header that asks for a transport.
pub open spec fn spec_transport_header(transport: Transport) -> Seq<char> {
    match transport {
        Transport::Udp { rtp_port, rtcp_port } => "RTP/AVP;unicast;client_port="@ + decimal(
            rtp_port as nat,
        ) + "-"@ + decimal(rtcp_port as nat),
        Transport::Tcp { rtp_channel, rtcp_channel } => "RTP/AVP/TCP;interleaved="@ + decimal(
            rtp_channel as nat,
        ) + "-"@ + decimal(rtcp_channel as nat),
        Transport::UdpMulticast => "RTP/AVP;multicast"@,
    }
}

/// Writes the value of the `Transport` header that asks for a transport.
pub fn transport_header(transport: Transport) -> (r: String)
    ensures
        r@ == spec_transport_header(transport),
{
    match transport {
        Transport::Udp { rtp_port, rtcp_port } => {
            let mut out = String::from_str("RTP/AVP;unicast;client_port=");
            push_decimal(&mut out, rtp_port as u64);
            out.append("-");
            push_decimal(&mut out, rtcp_port as u64);
            assert(out@ =~= spec_transport_header(transport));
            out
        },
        Transport::Tcp { rtp_channel, rtcp_channel } => {
            let mut out = String::from_str("RTP/AVP/TCP;interleaved=");
            push_decimal(&mut out, rtp_channel as u64);
            out.append("-");
            push_decimal(&mut out, rtcp_channel as u64);
            assert(out@ =~= spec_transport_header(transport));
            out
        },
        Transport::UdpMulticast => String::from_str("RTP/AVP;multicast"),
    }
}

/// How far the answers to DESCRIBE have brought the caller.
#[derive(Copy, Clone, Debug, PartialEq, Eq, Structural)]
pub struct DescribeState {
    /// Whether the request has been sent again with an answer to the
    /// server's challenge.
    pub auth_tried: bool,
    /// How many redirects have been followed.
    pub redirects: u32,
}

/// What has to be done after an answer to DESCRIBE.
#[derive(Copy, Clone, Debug, PartialEq, Eq, Structural)]
pub enum DescribeAction {
    /// Take the body as the description of the presentation.
    Accept,
    /// Solve the challenge and send the request again.
    Authenticate,
    /// Send the request to the location that the answer names.
    Redirect,
    /// Give up.
    Fail(ErrorKind),
}

/// What is made of an answer to DESCRIBE with the status `status`.
///
/// - 200 is accepted.
/// - 401 is answered once, if the caller has credentials. Otherwise, and
///   the second time, the caller is unauthorized.
/// - A redirect, 300 to 399, is followed if it names a location and fewer
///   than `max_redirects` have been followed.
/// - Anything else breaks the protocol.
pub open spec fn spec_on_describe(
    state: DescribeState,
    status: u16,
    has_credentials: bool,
    has_location: bool,
    max_redirects: u32,
) -> (DescribeState, DescribeAction) {
    if status == 200 {
        (state, DescribeAction::Accept)
    } else if status == 401 {
        if has_credentials && !state.auth_tried {
            (DescribeState { auth_tried: true, ..state }, DescribeAction::Authenticate)
        } else {
            (state, DescribeAction::Fail(ErrorKind::Unauthorized))
        }
    } else if 300 <= status <= 399 && has_location && state.redirects < max_redirects {
        (
            DescribeState { redirects: (state.redirects + 1) as u32, ..state },
            DescribeAction::Redirect,
        )
    } else {
        (state, DescribeAction::Fail(ErrorKind::RtspResponse))
    }
}

impl DescribeState {
    /// The state before the first DESCRIBE.
    pub fn new() -> (r: DescribeState)
        ensures
            r == (DescribeState { auth_tried: false, redirects: 0 }),
    {
        DescribeState { auth_tried: false, redirects: 0 }
    }

    /// Takes note of an answer to DESCRIBE with the status `status`, and
    /// says what has to be done.
    pub fn on_response(
        &mut self,
        status: u16,
        has_credentials: bool,
        has_location: bool,
        max_redirects: u32,
    ) -> (r: DescribeAction)
        ensures
            (*final(self), r) == spec_on_describe(
                *old(self),
                status,
                has_credentials,
                has_location,
                max_redirects,
            ),
    {
        if status == 200 {
            DescribeAction::Accept
        } else if status == 401 {
            if has_credentials && !self.auth_tried {
                self.auth_tried = true;
                DescribeAction::Authenticate
            } else {
                DescribeAction::Fail(ErrorKind::Unauthorized)
            }
        } else if 300 <= status && status <= 399 && has_location && self.redirects
            < max_redirects {
            self.redirects = self.redirects + 1;
            DescribeAction::Redirect
        } else {
            DescribeAction::Fail(ErrorKind::RtspResponse)
        }
    }
}

/// A request of the caller, or what became of the session.
#[derive(Copy, Clone, Debug, PartialEq, Eq, Structural)]
pub enum Step {
    /// The presentation has been described.
    Described,
    /// One more stream has been set up.
    StreamSetUp,
    /// PLAY has been answered.
    Played,
    /// The session has been torn down, or dropped.
    TornDown,
    /// The session has failed.
    Failed,
}

impl Phase {
    /// Whether `step` may be taken in this phase.
    ///
    /// - A presentation is described once, at the start.
    /// - Streams are set up once it is described, one after the other.
    /// - PLAY needs a stream that is set up.
    /// - Tearing down and failing are always possible.
    pub open spec fn allows(self, step: Step) -> bool {
        match step {
            Step::Described => self is Init,
            Step::StreamSetUp => self is Described || (self matches Phase::SetUp { streams }
                && streams < usize::MAX),
            Step::Played => self is SetUp,
            Step::TornDown => true,
            Step::Failed => true,
        }
    }

    /// The phase after `step`, if the step may be taken. A session that is
    /// torn down or has failed stays as it is.
    pub open spec fn spec_after(self, step: Step) -> Phase {
        if self is Teardown || self is Error {
            self
        } else {
            match step {
                Step::Described => Phase::Described,
                Step::StreamSetUp => match self {
                    Phase::SetUp { streams } => Phase::SetUp { streams: (streams + 1) as usize },
                    _ => Phase::SetUp { streams: 1 },
                },
                Step::Played => Phase::Playing,
                Step::TornDown => Phase::Teardown,
                Step::Failed => Phase::Error,
            }
        }
    }

    /// Whether `step` may be taken in this phase.
    pub fn is_allowed(self, step: Step) -> (r: bool)
        ensures
            r == self.allows(step),
    {
        match step {
            Step::Described => match self {
                Phase::Init => true,
                _ => false,
            },
            Step::StreamSetUp => match self {
                Phase::Described => true,
                Phase::SetUp { streams } => streams < usize::MAX,
                _ => false,
            },
            Step::Played => match self {
                Phase::SetUp { .. } => true,
                _ => false,
            },
            Step::TornDown => true,
            Step::Failed => true,
        }
    }

    /// The phase after `step`.
    pub fn after(self, step: Step) -> (r: Phase)
        requires
            self.allows(step),
        ensures
            r == self.spec_after(step),
    {
        match self {
            Phase::Teardown => self,
            Phase::Error => self,
            _ => match step {
                Step::Described => Phase::Described,
                Step::StreamSetUp => match self {
                    Phase::SetUp { streams } => Phase::SetUp { streams: streams + 1 },
                    _ => Phase::SetUp { streams: 1 },
                },
                Step::Played => Phase::Playing,
                Step::TornDown => Phase::Teardown,
                Step::Failed => Phase::Error,
            },
        }
    }

    /// The number of streams that are set up.
    pub open spec fn spec_streams(self) -> nat {
        match self {
            Phase::SetUp { streams } => streams as nat,
            _ => 0,
        }
    }
}

/// What the server's session id does to a session.
#[derive(Copy, Clone, Debug, PartialEq, Eq, Structural)]
pub enum SessionIdCheck {
    /// It is the first, and is the session's from now on.
    Captured,
    /// It is the session's.
    Echoed,
    /// It is another than the session's.
    Mismatch,
}

/// What the session id `answered` of an answer to SETUP does to a session
/// that has the id `known`, if any: the first id is the session's, and each
/// later one has to be the same.
pub open spec fn spec_check_session_id(known: Option<Seq<char>>, answered: Seq<char>) -> SessionIdCheck {
    match known {
        None => SessionIdCheck::Captured,
        Some(id) => if id == answered {
            SessionIdCheck::Echoed
        } else {
            SessionIdCheck::Mismatch
        },
    }
}

/// The id that a session has after an answer to SETUP with the id
/// `answered`.
pub open spec fn spec_session_id_after(known: Option<Seq<char>>, answered: Seq<char>) -> Option<
    Seq<char>,
> {
    match known {
        None => Some(answered),
        Some(id) => Some(id),
    }
}

/// The view of a session id that may not be there.
pub open spec fn spec_id_view(id: Option<String>) -> Option<Seq<char>> {
    match id {
        Some(s) => Some(s@),
        None => None,
    }
}

/// Takes the session id `answered` of an answer to SETUP into `known`.
pub fn check_session_id(known: &mut Option<String>, answered: String) -> (r: SessionIdCheck)
    ensures
        r == spec_check_session_id(spec_id_view(*old(known)), answered@),
        spec_id_view(*final(known)) == spec_session_id_after(
            spec_id_view(*old(known)),
            answered@,
        ),
{
    let check = match known {
        Some(id) => {
            if *id == answered {
                SessionIdCheck::Echoed
            } else {
                SessionIdCheck::Mismatch
            }
        },
        None => SessionIdCheck::Captured,
    };
    match check {
        SessionIdCheck::Captured => {
            *known = Some(answered);
        },
        _ => {},
    }
    check
}

/// The state of a [`Session`].
pub struct SessionModel {
    /// How far the dialog has come.
    pub phase: Phase,
    /// The server's id of the session, once a stream is set up.
    pub session_id: Option<Seq<char>>,
    /// Whether a server may answer with other channels than were asked for.
    pub allow_lax_interleaved_channels: bool,
}

impl SessionModel {
    /// The session and the answer after the server has answered a SETUP
    /// that asked for the transport `requested` with the transport
    /// `answered` and the session id `session_id`.
    ///
    /// A transport that was not asked for, or another session id than the
    /// session's, breaks the protocol, and the session has failed.
    /// Otherwise one more stream is set up, and the first id is the
    /// session's from then on.
    pub open spec fn spec_on_setup(
        self,
        requested: Transport,
        answered: Transport,
        session_id: Seq<char>,
    ) -> (SessionModel, Result<(), ErrorKind>) {
        if !spec_transport_matches(requested, answered, self.allow_lax_interleaved_channels)
            || spec_check_session_id(self.session_id, session_id) is Mismatch {
            (
                SessionModel { phase: self.phase.spec_after(Step::Failed), ..self },
                Err(ErrorKind::RtspResponse),
            )
        } else {
            (
                SessionModel {
                    phase: self.phase.spec_after(Step::StreamSetUp),
                    session_id: spec_session_id_after(self.session_id, session_id),
                    ..self
                },
                Ok(()),
            )
        }
    }

    /// The transport that is asked for to carry the next stream interleaved
    /// with the RTSP messages, if there are channels left for it.
    pub open spec fn spec_next_interleaved(self) -> Option<Transport> {
        match spec_interleaved_channels(self.phase.spec_streams() as usize) {
            Some((rtp_channel, rtcp_channel)) => Some(
                Transport::Tcp { rtp_channel, rtcp_channel },
            ),
            None => None,
        }
    }
}

/// The RTSP dialog of one session.
#[derive(Debug)]
pub struct Session {
    phase: Phase,
    session_id: Option<String>,
    allow_lax_interleaved_channels: bool,
}

impl View for Session {
    type V = SessionModel;

    closed spec fn view(&self) -> SessionModel {
        SessionModel {
            phase: self.phase,
            session_id: spec_id_view(self.session_id),
            allow_lax_interleaved_channels: self.allow_lax_interleaved_channels,
        }
    }
}

impl Session {
    /// A session of which nothing is known yet.
    pub fn new(allow_lax_interleaved_channels: bool) -> (r: Session)
        ensures
            r@ == (SessionModel {
                phase: Phase::Init,
                session_id: None,
                allow_lax_interleaved_channels,
            }),
    {
        Session { phase: Phase::Init, session_id: None, allow_lax_interleaved_channels }
    }

    /// How far the dialog has come.
    pub fn phase(&self) -> (r: Phase)
        ensures
            r == self@.phase,
    {
        self.phase
    }

    /// The server's id of the session, once a stream is set up.
    pub fn session_id(&self) -> (r: Option<&str>)
        ensures
            match self@.session_id {
                Some(id) => r is Some && r->Some_0@ == id,
                None => r is None,
            },
    {
        match &self.session_id {
            Some(id) => Some(id.as_str()),
            None => None,
        }
    }

    /// Takes `step`, which has to be allowed.
    pub fn take(&mut self, step: Step)
        requires
            old(self)@.phase.allows(step),
        ensures
            final(self)@ == (SessionModel { phase: old(self)@.phase.spec_after(step), ..old(self)@ }),
    {
        self.phase = self.phase.after(step);
    }

    /// The transport that is asked for to carry the next stream interleaved
    /// with the RTSP messages, if there are channels left for it.
    pub fn next_interleaved(&self) -> (r: Option<Transport>)
        ensures
            r == self@.spec_next_interleaved(),
    {
        let streams: usize = match self.phase {
            Phase::SetUp { streams } => streams,
            _ => 0,
        };
        match interleaved_channels(streams) {
            Some((rtp_channel, rtcp_channel)) => Some(
                Transport::Tcp { rtp_channel, rtcp_channel },
            ),
            None => None,
        }
    }

    /// Takes note of the answer to a SETUP that asked for the transport
    /// `requested`: the server has answered with the transport `answered`
    /// and the session id `session_id`.
    pub fn on_setup(&mut self, requested: Transport, answered: Transport, session_id: String) -> (r:
        Result<(), ErrorKind>)
        requires
            old(self)@.phase.allows(Step::StreamSetUp),
        ensures
            (final(self)@, r) == old(self)@.spec_on_setup(requested, answered, session_id@),
    {
        if !transport_matches(requested, answered, self.allow_lax_interleaved_channels) {
            self.phase = self.phase.after(Step::Failed);
            return Err(ErrorKind::RtspResponse);
        }
        let ghost known = spec_id_view(self.session_id);
        match check_session_id(&mut self.session_id, session_id) {
            SessionIdCheck::Mismatch => {
                proof {
                    assert(spec_id_view(self.session_id) == known);
                }
                self.phase = self.phase.after(Step::Failed);
                Err(ErrorKind::RtspResponse)
            },
            _ => {
                self.phase = self.phase.after(Step::StreamSetUp);
                Ok(())
            },
        }
    }
}

/// A session that has been torn down or has failed stays as it is, whatever
/// is done, and any other session can be torn down and can fail.
pub proof fn lemma_phases_end(phase: Phase, step: Step)
    ensures
        phase is Teardown || phase is Error ==> phase.spec_after(step) == phase,
        !(phase is Teardown || phase is Error) ==> phase.spec_after(Step::TornDown)
            is Teardown && phase.spec_after(Step::Failed) is Error,
        phase.allows(Step::TornDown) && phase.allows(Step::Failed),
{
}

/// The phases follow one another in one order: a session plays only after a
/// stream was set up, and a stream is set up only after the presentation was
/// described.
pub proof fn lemma_phases_in_order(phase: Phase, step: Step)
    requires
        phase.allows(step),
    ensures
        phase.spec_after(step) is Playing ==> phase is Playing || (phase is SetUp && step
            == Step::Played),
        phase.spec_after(step) is SetUp ==> phase is SetUp || (phase is Described && step
            == Step::StreamSetUp),
        phase.spec_after(step) is Described ==> phase is Described || (phase is Init && step
            == Step::Described),
        phase.spec_after(step) is Init ==> phase is Init,
{
}

} // verus!
