//! Reading the values of RTSP headers: lists that are separated by commas,
//! and the `RTP-Info` of a response to PLAY.

use vstd::prelude::*;

verus! {

/// Whether a byte is ASCII white space.
pub open spec fn spec_is_space(b: u8) -> bool {
    b == 0x20 || (0x09 <= b <= 0x0D)
}

/// `s` without the white space at its start.
pub open spec fn spec_trim_start(s: Seq<u8>) -> Seq<u8>
    decreases s.len(),
{
    if s.len() > 0 && spec_is_space(s[0]) {
        spec_trim_start(s.drop_first())
    } else {
        s
    }
}

/// `s` without the white space at its end.
pub open spec fn spec_trim_end(s: Seq<u8>) -> Seq<u8>
    decreases s.len(),
{
    if s.len() > 0 && spec_is_space(s.last()) {
        spec_trim_end(s.drop_last())
    } else {
        s
    }
}

/// `s` without the white space at its start and at its end.
pub open spec fn spec_trim(s: Seq<u8>) -> Seq<u8> {
    spec_trim_end(spec_trim_start(s))
}

/// The index of the first byte `b` in `s`, or the length of `s` if there
/// is none.
pub open spec fn spec_index_of(s: Seq<u8>, b: u8) -> int
    decreases s.len(),
{
    if s.len() == 0 || s[0] == b {
        0
    } else {
        1 + spec_index_of(s.drop_first(), b)
    }
}

/// Whether `token` is one of the items of `list`, which are separated by
/// commas and may have white space around them.
pub open spec fn spec_lists(list: Seq<u8>, token: Seq<u8>) -> bool
    decreases list.len(),
{
    let end = spec_index_of(list, 0x2C);
    spec_trim(list.take(end)) == token || (0 <= end < list.len() && spec_lists(
        list.skip(end + 1),
        token,
    ))
}

/// The index of the first byte `b` is within the sequence, or its length,
/// and no byte before it is `b`.
pub proof fn lemma_index_of(s: Seq<u8>, b: u8)
    ensures
        0 <= spec_index_of(s, b) <= s.len(),
        spec_index_of(s, b) < s.len() ==> s[spec_index_of(s, b)] == b,
        forall|i: int| 0 <= i < spec_index_of(s, b) ==> #[trigger] s[i] != b,
    decreases s.len(),
{
    if s.len() == 0 || s[0] == b {
    } else {
        lemma_index_of(s.drop_first(), b);
        assert forall|i: int| 0 <= i < spec_index_of(s, b) implies #[trigger] s[i] != b by {
            if i > 0 {
                assert(s[i] == s.drop_first()[i - 1]);
            }
        }
    }
}

/// Whether a byte is ASCII white space.
pub fn is_space(b: u8) -> (r: bool)
    ensures
        r == spec_is_space(b),
{
    b == 0x20 || (0x09 <= b && b <= 0x0D)
}

/// Finds the first byte `b` among the bytes from `from` up to `to`.
pub fn index_of(buf: &[u8], from: usize, to: usize, b: u8) -> (r: usize)
    requires
        from <= to <= buf@.len(),
    ensures
        r == from + spec_index_of(buf@.subrange(from as int, to as int), b),
        from <= r <= to,
{
    let mut at: usize = from;
    while at < to && buf[at] != b
        invariant
            from <= at <= to <= buf@.len(),
            spec_index_of(buf@.subrange(from as int, to as int), b) == (at - from) + spec_index_of(
                buf@.subrange(at as int, to as int),
                b,
            ),
        decreases to - at,
    {
        proof {
            let rest = buf@.subrange(at as int, to as int);
            assert(rest[0] == buf@[at as int]);
            assert(rest.drop_first() =~= buf@.subrange(at + 1, to as int));
        }
        at = at + 1;
    }
    proof {
        let rest = buf@.subrange(at as int, to as int);
        if at < to {
            assert(rest[0] == buf@[at as int]);
        }
    }
    at
}

/// Finds the bytes from `from` up to `to` without the white space at their
/// start and at their end.
pub fn trim(buf: &[u8], from: usize, to: usize) -> (r: (usize, usize))
    requires
        from <= to <= buf@.len(),
    ensures
        from <= r.0 <= r.1 <= to,
        buf@.subrange(r.0 as int, r.1 as int) == spec_trim(buf@.subrange(from as int, to as int)),
{
    let mut start: usize = from;
    while start < to && is_space(buf[start])
        invariant
            from <= start <= to <= buf@.len(),
            spec_trim_start(buf@.subrange(from as int, to as int)) == spec_trim_start(
                buf@.subrange(start as int, to as int),
            ),
        decreases to - start,
    {
        proof {
            let rest = buf@.subrange(start as int, to as int);
            assert(rest[0] == buf@[start as int]);
            assert(rest.drop_first() =~= buf@.subrange(start + 1, to as int));
        }
        start = start + 1;
    }
    proof {
        let rest = buf@.subrange(start as int, to as int);
        if start < to {
            assert(rest[0] == buf@[start as int]);
        }
        assert(spec_trim_start(rest) == rest);
    }
    let mut end: usize = to;
    while start < end && is_space(buf[end - 1])
        invariant
            from <= start <= end <= to <= buf@.len(),
            spec_trim(buf@.subrange(from as int, to as int)) == spec_trim_end(
                buf@.subrange(start as int, end as int),
            ),
        decreases end - start,
    {
        proof {
            let rest = buf@.subrange(start as int, end as int);
            assert(rest.last() == buf@[end - 1]);
            assert(rest.drop_last() =~= buf@.subrange(start as int, end - 1));
        }
        end = end - 1;
    }
    proof {
        let rest = buf@.subrange(start as int, end as int);
        if start < end {
            assert(rest.last() == buf@[end - 1]);
        }
        assert(spec_trim_end(rest) == rest);
    }
    (start, end)
}

/// Whether the bytes from `from` up to `to` are the bytes of `token`.
pub fn equals(buf: &[u8], from: usize, to: usize, token: &[u8]) -> (r: bool)
    requires
        from <= to <= buf@.len(),
    ensures
        r == (buf@.subrange(from as int, to as int) == token@),
{
    if to - from != token.len() {
        return false;
    }
    let mut at: usize = 0;
    while at < token.len()
        invariant
            from <= to <= buf@.len(),
            to - from == token@.len(),
            0 <= at <= token@.len(),
            forall|i: int| 0 <= i < at ==> buf@[from + i] == #[trigger] token@[i],
        decreases token@.len() - at,
    {
        if buf[from + at] != token[at] {
            proof {
                assert(buf@.subrange(from as int, to as int)[at as int] != token@[at as int]);
            }
            return false;
        }
        at = at + 1;
    }
    proof {
        assert(buf@.subrange(from as int, to as int) =~= token@);
    }
    true
}

/// Whether `token` is one of the items of `list`, which are separated by
/// commas and may have white space around them.
pub fn lists(list: &[u8], token: &[u8]) -> (r: bool)
    ensures
        r == spec_lists(list@, token@),
{
    let len: usize = list.len();
    let mut from: usize = 0;
    proof {
        assert(list@.subrange(0, len as int) =~= list@);
    }
    loop
        invariant
            0 <= from <= len == list@.len(),
            spec_lists(list@, token@) == spec_lists(list@.subrange(from as int, len as int), token@),
        decreases len - from,
    {
        let ghost rest = list@.subrange(from as int, len as int);
        let end: usize = index_of(list, from, len, 0x2C);
        let (a, b) = trim(list, from, end);
        proof {
            assert(rest.take(end - from) =~= list@.subrange(from as int, end as int));
        }
        if equals(list, a, b, token) {
            return true;
        }
        if end == len {
            return false;
        }
        proof {
            assert(rest.skip(end - from + 1) =~= list@.subrange(end + 1, len as int));
        }
        from = end + 1;
    }
}

/// The value of a digit in the given radix, which is 10 or 16.
pub open spec fn spec_digit(b: u8, radix: nat) -> Option<nat> {
    if 0x30 <= b <= 0x39 {
        Some((b - 0x30) as nat)
    } else if radix == 16 && 0x61 <= b <= 0x66 {
        Some((b - 0x61 + 10) as nat)
    } else if radix == 16 && 0x41 <= b <= 0x46 {
        Some((b - 0x41 + 10) as nat)
    } else {
        None
    }
}

/// The number that the digits `s` spell in the given radix, if they are
/// digits and there is at least one.
pub open spec fn spec_number(s: Seq<u8>, radix: nat) -> Option<nat>
    decreases s.len(),
{
    if s.len() == 0 {
        None
    } else if s.len() == 1 {
        spec_digit(s[0], radix)
    } else {
        match (spec_number(s.drop_last(), radix), spec_digit(s.last(), radix)) {
            (Some(value), Some(digit)) => Some(value * radix + digit),
            _ => None,
        }
    }
}

/// The number that the digits `s` spell, if it is no more than `max`.
pub open spec fn spec_number_upto(s: Seq<u8>, radix: nat, max: nat) -> Option<nat> {
    match spec_number(s, radix) {
        Some(value) => if value <= max {
            Some(value)
        } else {
            None
        },
        None => None,
    }
}

/// The digits of a number are digits one by one, and the number is no less
/// than the one that fewer of them spell.
pub proof fn lemma_number_prefix(s: Seq<u8>, radix: nat, upto: int)
    requires
        radix == 10 || radix == 16,
        1 <= upto <= s.len(),
        spec_number(s, radix) is Some,
    ensures
        spec_number(s.take(upto), radix) is Some,
        spec_number(s.take(upto), radix)->Some_0 <= spec_number(s, radix)->Some_0,
    decreases s.len(),
{
    if upto == s.len() {
        assert(s.take(upto) =~= s);
    } else {
        lemma_number_prefix(s.drop_last(), radix, upto);
        assert(s.drop_last().take(upto) =~= s.take(upto));
        let value = spec_number(s.drop_last(), radix)->Some_0;
        assert(value * radix >= value) by (nonlinear_arith)
            requires
                radix >= 1,
        ;
    }
}

/// The value of the digit `b` in the given radix, which is 10 or 16.
pub fn digit(b: u8, radix: u32) -> (r: Option<u32>)
    requires
        radix == 10 || radix == 16,
    ensures
        match spec_digit(b, radix as nat) {
            Some(d) => r == Some(d as u32) && d < radix,
            None => r is None,
        },
{
    if 0x30 <= b && b <= 0x39 {
        Some((b - 0x30) as u32)
    } else if radix == 16 && 0x61 <= b && b <= 0x66 {
        Some((b - 0x61 + 10) as u32)
    } else if radix == 16 && 0x41 <= b && b <= 0x46 {
        Some((b - 0x41 + 10) as u32)
    } else {
        None
    }
}

/// Reads the number that the bytes from `from` up to `to` spell in the
/// given radix, which is 10 or 16, if they are digits, there is at least
/// one, and the number is no more than `max`.
pub fn number_upto(buf: &[u8], from: usize, to: usize, radix: u32, max: u32) -> (r: Option<u32>)
    requires
        from <= to <= buf@.len(),
        radix == 10 || radix == 16,
    ensures
        match spec_number_upto(buf@.subrange(from as int, to as int), radix as nat, max as nat) {
            Some(value) => r == Some(value as u32),
            None => r is None,
        },
{
    let ghost all = buf@.subrange(from as int, to as int);
    if from == to {
        return None;
    }
    let mut value: u64 = 0;
    let mut at: usize = from;
    while at < to
        invariant
            from <= at <= to <= buf@.len(),
            from < to,
            radix == 10 || radix == 16,
            all == buf@.subrange(from as int, to as int),
            value <= max,
            at > from ==> spec_number(all.take(at - from), radix as nat) == Some(value as nat),
            at == from ==> value == 0,
        decreases to - at,
    {
        let ghost seen = all.take(at - from + 1);
        proof {
            assert(seen.last() == buf@[at as int]);
            assert(seen.drop_last() =~= all.take(at - from));
        }
        let d = match digit(buf[at], radix) {
            Some(d) => d,
            None => {
                proof {
                    if spec_number(all, radix as nat) is Some {
                        lemma_number_prefix(all, radix as nat, at - from + 1);
                    }
                }
                return None;
            },
        };
        assert(value * radix <= 0xFFFF_FFFF * 16) by (nonlinear_arith)
            requires
                0 <= value <= 0xFFFF_FFFF,
                0 <= radix <= 16,
        ;
        let next: u64 = value * (radix as u64) + (d as u64);
        proof {
            assert(spec_digit(seen.last(), radix as nat) == Some(d as nat));
            if at > from {
                assert(seen.len() > 1);
                assert(spec_number(seen.drop_last(), radix as nat) == Some(value as nat));
                assert(spec_number(seen, radix as nat) == Some(
                    (value as nat) * (radix as nat) + (d as nat),
                ));
            } else {
                assert(seen.len() == 1);
                assert(seen[0] == buf@[at as int]);
                assert(value == 0);
                assert(spec_number(seen, radix as nat) == Some(d as nat));
            }
            assert(spec_number(seen, radix as nat) == Some(next as nat));
        }
        if next > max as u64 {
            proof {
                if spec_number(all, radix as nat) is Some {
                    lemma_number_prefix(all, radix as nat, at - from + 1);
                }
            }
            return None;
        }
        value = next;
        at = at + 1;
    }
    proof {
        assert(all.take(to - from) =~= all);
    }
    Some(value as u32)
}

/// What a server says of one stream when it starts to play.
#[derive(Clone, Debug, PartialEq, Eq)]
pub struct RtpInfo {
    /// The URL of the stream, as the server writes it.
    pub url: Vec<u8>,
    /// The sequence number of the first packet.
    pub seq: Option<u16>,
    /// The timestamp that stands for the start of the stream.
    pub rtptime: Option<u32>,
    /// The synchronization source.
    pub ssrc: Option<u32>,
}

/// What an [`RtpInfo`] holds.
pub struct RtpInfoModel {
    pub url: Seq<u8>,
    pub seq: Option<u16>,
    pub rtptime: Option<u32>,
    pub ssrc: Option<u32>,
}

impl View for RtpInfo {
    type V = RtpInfoModel;

    open spec fn view(&self) -> RtpInfoModel {
        RtpInfoModel { url: self.url@, seq: self.seq, rtptime: self.rtptime, ssrc: self.ssrc }
    }
}

/// What is wrong with an `RTP-Info` header.
#[derive(Copy, Clone, Debug, PartialEq, Eq, Structural)]
pub enum RtpInfoFault {
    /// An entry does not start with `url=`.
    MissingUrl,
    /// A parameter has no equals sign.
    BadParameter,
    /// `seq` is no decimal number of 16 bits.
    BadSeq,
    /// `rtptime` is no decimal number of 32 bits.
    BadRtptime,
    /// `ssrc` is no hexadecimal number of 32 bits.
    BadSsrc,
}

/// `url=`
pub open spec fn spec_url_prefix() -> Seq<u8> {
    seq![0x75u8, 0x72u8, 0x6Cu8, 0x3Du8]
}

/// `seq`
pub open spec fn spec_key_seq() -> Seq<u8> {
    seq![0x73u8, 0x65u8, 0x71u8]
}

/// `rtptime`
pub open spec fn spec_key_rtptime() -> Seq<u8> {
    seq![0x72u8, 0x74u8, 0x70u8, 0x74u8, 0x69u8, 0x6Du8, 0x65u8]
}

/// `ssrc`
pub open spec fn spec_key_ssrc() -> Seq<u8> {
    seq![0x73u8, 0x73u8, 0x72u8, 0x63u8]
}

/// The entry `info` with what the parameter `part` says: a sequence number
/// in `seq`, a timestamp in `rtptime`, a source in `ssrc`. Other
/// parameters say nothing.
pub open spec fn spec_with_parameter(info: RtpInfoModel, part: Seq<u8>) -> Result<
    RtpInfoModel,
    RtpInfoFault,
> {
    let eq = spec_index_of(part, 0x3D);
    if eq >= part.len() {
        Err(RtpInfoFault::BadParameter)
    } else {
        let key = part.take(eq);
        let value = part.skip(eq + 1);
        if key == spec_key_seq() {
            match spec_number_upto(value, 10, 0xFFFF) {
                Some(seq) => Ok(RtpInfoModel { seq: Some(seq as u16), ..info }),
                None => Err(RtpInfoFault::BadSeq),
            }
        } else if key == spec_key_rtptime() {
            match spec_number_upto(value, 10, 0xFFFF_FFFF) {
                Some(rtptime) => Ok(RtpInfoModel { rtptime: Some(rtptime as u32), ..info }),
                None => Err(RtpInfoFault::BadRtptime),
            }
        } else if key == spec_key_ssrc() {
            match spec_number_upto(value, 16, 0xFFFF_FFFF) {
                Some(ssrc) => Ok(RtpInfoModel { ssrc: Some(ssrc as u32), ..info }),
                None => Err(RtpInfoFault::BadSsrc),
            }
        } else {
            Ok(info)
        }
    }
}

/// The entry `info` with what the parameters `rest` say, which are
/// separated by semicolons. `None` stands for no parameter at all.
pub open spec fn spec_with_parameters(info: RtpInfoModel, rest: Option<Seq<u8>>) -> Result<
    RtpInfoModel,
    RtpInfoFault,
>
    decreases
            (match rest {
                Some(r) => r.len() + 1,
                None => 0,
            }),
{
    match rest {
        None => Ok(info),
        Some(r) => {
            let end = spec_index_of(r, 0x3B);
            match spec_with_parameter(info, r.take(end)) {
                Ok(next) => spec_with_parameters(
                    next,
                    if 0 <= end < r.len() {
                        Some(r.skip(end + 1))
                    } else {
                        None
                    },
                ),
                Err(fault) => Err(fault),
            }
        },
    }
}

/// What the entry `entry` says: a URL after `url=`, and parameters after
/// it, each behind a semicolon.
pub open spec fn spec_entry(entry: Seq<u8>) -> Result<RtpInfoModel, RtpInfoFault> {
    let end = spec_index_of(entry, 0x3B);
    let first = entry.take(end);
    if first.len() >= 4 && first.take(4) == spec_url_prefix() {
        spec_with_parameters(
            RtpInfoModel { url: first.skip(4), seq: None, rtptime: None, ssrc: None },
            if 0 <= end < entry.len() {
                Some(entry.skip(end + 1))
            } else {
                None
            },
        )
    } else {
        Err(RtpInfoFault::MissingUrl)
    }
}

/// The entries `infos`, followed by what the entries in `rest` say, which
/// are separated by commas and may have white space around them. `None`
/// stands for no entry at all.
pub open spec fn spec_entries(infos: Seq<RtpInfoModel>, rest: Option<Seq<u8>>) -> Result<
    Seq<RtpInfoModel>,
    RtpInfoFault,
>
    decreases
            (match rest {
                Some(r) => r.len() + 1,
                None => 0,
            }),
{
    match rest {
        None => Ok(infos),
        Some(r) => {
            let end = spec_index_of(r, 0x2C);
            match spec_entry(spec_trim(r.take(end))) {
                Ok(info) => spec_entries(
                    infos.push(info),
                    if 0 <= end < r.len() {
                        Some(r.skip(end + 1))
                    } else {
                        None
                    },
                ),
                Err(fault) => Err(fault),
            }
        },
    }
}

/// What the value of an `RTP-Info` header says: one entry for each stream.
pub open spec fn spec_rtp_info(value: Seq<u8>) -> Result<Seq<RtpInfoModel>, RtpInfoFault> {
    spec_entries(Seq::empty(), Some(value))
}

/// What each of `infos` holds.
pub open spec fn spec_views(infos: Seq<RtpInfo>) -> Seq<RtpInfoModel> {
    Seq::new(infos.len(), |i: int| infos[i]@)
}

/// Takes what the parameter in the bytes from `from` up to `to` says into
/// the entry `info`.
fn with_parameter(info: &mut RtpInfo, buf: &[u8], from: usize, to: usize) -> (r: Result<
    (),
    RtpInfoFault,
>)
    requires
        from <= to <= buf@.len(),
    ensures
        match spec_with_parameter(old(info)@, buf@.subrange(from as int, to as int)) {
            Ok(next) => r is Ok && final(info)@ == next,
            Err(fault) => r == Err::<(), RtpInfoFault>(fault),
        },
{
    let ghost part = buf@.subrange(from as int, to as int);
    let eq: usize = index_of(buf, from, to, 0x3D);
    if eq == to {
        return Err(RtpInfoFault::BadParameter);
    }
    proof {
        assert(part.take(eq - from) =~= buf@.subrange(from as int, eq as int));
        assert(part.skip(eq - from + 1) =~= buf@.subrange(eq + 1, to as int));
    }
    let key_seq: [u8; 3] = [0x73, 0x65, 0x71];
    let key_rtptime: [u8; 7] = [0x72, 0x74, 0x70, 0x74, 0x69, 0x6D, 0x65];
    let key_ssrc: [u8; 4] = [0x73, 0x73, 0x72, 0x63];
    proof {
        assert(key_seq@ =~= spec_key_seq());
        assert(key_rtptime@ =~= spec_key_rtptime());
        assert(key_ssrc@ =~= spec_key_ssrc());
    }
    if equals(buf, from, eq, key_seq.as_slice()) {
        match number_upto(buf, eq + 1, to, 10, 0xFFFF) {
            Some(seq) => {
                info.seq = Some(seq as u16);
                Ok(())
            },
            None => Err(RtpInfoFault::BadSeq),
        }
    } else if equals(buf, from, eq, key_rtptime.as_slice()) {
        match number_upto(buf, eq + 1, to, 10, 0xFFFF_FFFF) {
            Some(rtptime) => {
                info.rtptime = Some(rtptime);
                Ok(())
            },
            None => Err(RtpInfoFault::BadRtptime),
        }
    } else if equals(buf, from, eq, key_ssrc.as_slice()) {
        match number_upto(buf, eq + 1, to, 16, 0xFFFF_FFFF) {
            Some(ssrc) => {
                info.ssrc = Some(ssrc);
                Ok(())
            },
            None => Err(RtpInfoFault::BadSsrc),
        }
    } else {
        Ok(())
    }
}

/// Reads the entry in the bytes from `from` up to `to`.
fn entry(buf: &[u8], from: usize, to: usize) -> (r: Result<RtpInfo, RtpInfoFault>)
    requires
        from <= to <= buf@.len(),
    ensures
        match spec_entry(buf@.subrange(from as int, to as int)) {
            Ok(info) => r is Ok && r->Ok_0@ == info,
            Err(fault) => r == Err::<RtpInfo, RtpInfoFault>(fault),
        },
{
    let ghost all = buf@.subrange(from as int, to as int);
    let end: usize = index_of(buf, from, to, 0x3B);
    proof {
        assert(all.take(end - from) =~= buf@.subrange(from as int, end as int));
    }
    let ghost first = buf@.subrange(from as int, end as int);
    if end - from < 4 || buf[from] != 0x75 || buf[from + 1] != 0x72 || buf[from + 2] != 0x6C
        || buf[from + 3] != 0x3D {
        proof {
            if first.len() >= 4 {
                assert(first.take(4)[0] == buf@[from as int]);
                assert(first.take(4)[1] == buf@[from + 1]);
                assert(first.take(4)[2] == buf@[from + 2]);
                assert(first.take(4)[3] == buf@[from + 3]);
            }
        }
        return Err(RtpInfoFault::MissingUrl);
    }
    proof {
        assert(first.take(4) =~= spec_url_prefix());
        assert(first.skip(4) =~= buf@.subrange(from + 4, end as int));
    }
    let mut info = RtpInfo {
        url: vstd::slice::slice_to_vec(vstd::slice::slice_subrange(buf, from + 4, end)),
        seq: None,
        rtptime: None,
        ssrc: None,
    };
    let ghost start = info@;
    let mut at: usize = end;
    proof {
        if end < to {
            assert(all.skip(end - from + 1) =~= buf@.subrange(end + 1, to as int));
        }
    }
    while at < to
        invariant
            from <= at <= to <= buf@.len(),
            spec_entry(buf@.subrange(from as int, to as int)) == spec_with_parameters(
                info@,
                if at < to {
                    Some(buf@.subrange(at + 1, to as int))
                } else {
                    None
                },
            ),
        decreases to - at,
    {
        let ghost rest = buf@.subrange(at + 1, to as int);
        let next: usize = index_of(buf, at + 1, to, 0x3B);
        proof {
            assert(rest.take(next - at - 1) =~= buf@.subrange(at + 1, next as int));
            if next < to {
                assert(rest.skip(next - at) =~= buf@.subrange(next + 1, to as int));
            }
        }
        match with_parameter(&mut info, buf, at + 1, next) {
            Ok(()) => {},
            Err(fault) => {
                return Err(fault);
            },
        }
        at = next;
    }
    Ok(info)
}

/// Reads the value of an `RTP-Info` header: entries that are separated by
/// commas, one for each stream. Each entry is a URL behind `url=`, followed
/// by parameters, each behind a semicolon: `seq` with the sequence number
/// of the first packet, `rtptime` with the timestamp at the start, both
/// decimal, and `ssrc` with the source, hexadecimal.
pub fn rtp_info(value: &[u8]) -> (r: Result<Vec<RtpInfo>, RtpInfoFault>)
    ensures
        match spec_rtp_info(value@) {
            Ok(infos) => r is Ok && spec_views(r->Ok_0@) == infos,
            Err(fault) => r == Err::<Vec<RtpInfo>, RtpInfoFault>(fault),
        },
{
    let len: usize = value.len();
    let mut infos: Vec<RtpInfo> = Vec::new();
    let mut from: usize = 0;
    proof {
        assert(value@.subrange(0, len as int) =~= value@);
        assert(spec_views(infos@) =~= Seq::<RtpInfoModel>::empty());
    }
    loop
        invariant
            0 <= from <= len == value@.len(),
            spec_rtp_info(value@) == spec_entries(
                spec_views(infos@),
                Some(value@.subrange(from as int, len as int)),
            ),
        decreases len - from,
    {
        let ghost rest = value@.subrange(from as int, len as int);
        let end: usize = index_of(value, from, len, 0x2C);
        let (a, b) = trim(value, from, end);
        proof {
            assert(rest.take(end - from) =~= value@.subrange(from as int, end as int));
        }
        let info = match entry(value, a, b) {
            Ok(info) => info,
            Err(fault) => {
                return Err(fault);
            },
        };
        let ghost before = spec_views(infos@);
        infos.push(info);
        proof {
            assert(spec_views(infos@) =~= before.push(info@));
            assert(spec_entries(spec_views(infos@), None) == Ok::<
                Seq<RtpInfoModel>,
                RtpInfoFault,
            >(spec_views(infos@)));
        }
        if end == len {
            return Ok(infos);
        }
        proof {
            assert(rest.skip(end - from + 1) =~= value@.subrange(end + 1, len as int));
        }
        from = end + 1;
    }
}

} // verus!
