//! Answering a server's challenge with the caller's credentials, by the
//! Basic and Digest schemes of RFC 2617.

use super::parse::{index_of, is_space, lists, spec_index_of, spec_is_space, spec_lists, spec_trim, trim};
use crate::chance::draw;
use vstd::prelude::*;

verus! {

/// The MD5 digest of `data`: 16 bytes.
pub uninterp spec fn md5_digest(data: Seq<u8>) -> Seq<u8>;

/// The base64 form of `data`, in the standard alphabet and with padding.
pub uninterp spec fn base64(data: Seq<u8>) -> Seq<u8>;

/// The longest input that is encoded in base64.
pub const BASE64_INPUT_LIMIT: usize = 0x3FFF_FFFF;

/// Computes the MD5 digest of `data` with `md5::compute`.
///
/// Trusted: the digest depends on the data alone, and has 16 bytes.
#[verifier::external_body]
fn md5_digest_of(data: &[u8]) -> (r: Vec<u8>)
    ensures
        r@ == md5_digest(data@),
        r@.len() == 16,
{
    md5::compute(data).0.to_vec()
}

/// Encodes `data` with `base64::encode`.
///
/// Trusted: the result depends on the data alone.
#[verifier::external_body]
fn base64_of(data: &[u8]) -> (r: Vec<u8>)
    requires
        data@.len() <= BASE64_INPUT_LIMIT,
    ensures
        r@ == base64(data@),
{
    base64::encode(data).into_bytes()
}

/// The caller's name and password.
#[derive(Clone, Debug, PartialEq, Eq)]
pub struct Credentials {
    pub username: String,
    pub password: String,
}

impl Credentials {
    /// The bytes of the name, in UTF-8.
    pub open spec fn spec_username(&self) -> Seq<u8> {
        vstd::utf8::encode_utf8(self.username@)
    }

    /// The bytes of the password, in UTF-8.
    pub open spec fn spec_password(&self) -> Seq<u8> {
        vstd::utf8::encode_utf8(self.password@)
    }
}

/// The scheme of a challenge.
#[derive(Copy, Clone, Debug, PartialEq, Eq, Structural)]
pub enum Scheme {
    Basic,
    Digest,
}

/// A colon.
pub open spec fn spec_colon() -> Seq<u8> {
    seq![0x3Au8]
}

/// The hexadecimal digit of a number below 16, in lower case.
pub open spec fn spec_hex_digit(d: u32) -> u8 {
    if d < 10 {
        (0x30 + d) as u8
    } else {
        (0x61 + d - 10) as u8
    }
}

/// The eight hexadecimal digits of a number, in lower case.
pub open spec fn spec_hex8(n: u32) -> Seq<u8> {
    seq![
        spec_hex_digit((n / 0x1000_0000) % 16),
        spec_hex_digit((n / 0x100_0000) % 16),
        spec_hex_digit((n / 0x10_0000) % 16),
        spec_hex_digit((n / 0x1_0000) % 16),
        spec_hex_digit((n / 0x1000) % 16),
        spec_hex_digit((n / 0x100) % 16),
        spec_hex_digit((n / 0x10) % 16),
        spec_hex_digit(n % 16),
    ]
}

/// Two hexadecimal digits in lower case for each of `bytes`, the high half
/// of a byte first.
pub open spec fn spec_hex(bytes: Seq<u8>) -> Seq<u8>
    decreases bytes.len(),
{
    if bytes.len() == 0 {
        Seq::empty()
    } else {
        spec_hex(bytes.drop_last()) + seq![
            spec_hex_digit((bytes.last() / 16) as u32),
            spec_hex_digit((bytes.last() % 16) as u32),
        ]
    }
}

/// The MD5 digest of `data`, in 32 hexadecimal digits in lower case.
pub open spec fn md5_hex(data: Seq<u8>) -> Seq<u8> {
    spec_hex(md5_digest(data))
}

/// The digest of name, realm and password.
pub open spec fn spec_ha1(username: Seq<u8>, realm: Seq<u8>, password: Seq<u8>) -> Seq<u8> {
    md5_hex(username + spec_colon() + realm + spec_colon() + password)
}

/// The digest of method and URI.
pub open spec fn spec_ha2(method: Seq<u8>, uri: Seq<u8>) -> Seq<u8> {
    md5_hex(method + spec_colon() + uri)
}

/// `auth`
pub open spec fn spec_auth() -> Seq<u8> {
    seq![0x61u8, 0x75u8, 0x74u8, 0x68u8]
}

/// The answer to a Digest challenge: the digest of the two digests above
/// with the nonce between them, and where the server asks for the quality
/// of protection `auth`, the count of requests, the client's nonce and
/// `auth` as well.
pub open spec fn spec_response(
    ha1: Seq<u8>,
    nonce: Seq<u8>,
    qop_auth: bool,
    nc: u32,
    cnonce: Seq<u8>,
    ha2: Seq<u8>,
) -> Seq<u8> {
    if qop_auth {
        md5_hex(
            ha1 + spec_colon() + nonce + spec_colon() + spec_hex8(nc) + spec_colon() + cnonce
                + spec_colon() + spec_auth() + spec_colon() + ha2,
        )
    } else {
        md5_hex(ha1 + spec_colon() + nonce + spec_colon() + ha2)
    }
}

/// `s` with a backslash before each quotation mark and each backslash.
pub open spec fn spec_escape(s: Seq<u8>) -> Seq<u8>
    decreases s.len(),
{
    if s.len() == 0 {
        s
    } else if s.last() == 0x22 || s.last() == 0x5C {
        spec_escape(s.drop_last()).push(0x5C).push(s.last())
    } else {
        spec_escape(s.drop_last()).push(s.last())
    }
}

/// `s` as a quoted string.
pub open spec fn spec_quote(s: Seq<u8>) -> Seq<u8> {
    seq![0x22u8] + spec_escape(s) + seq![0x22u8]
}

/// The bytes of an ASCII text.
pub open spec fn spec_ascii(text: Seq<char>) -> Seq<u8> {
    Seq::new(text.len(), |i: int| text[i] as u8)
}

/// What a client keeps of a Digest challenge to answer it with each
/// request.
pub struct DigestModel {
    /// The realm.
    pub realm: Seq<u8>,
    /// The server's nonce.
    pub nonce: Seq<u8>,
    /// What the server wants to get back as it is, if anything.
    pub opaque: Option<Seq<u8>>,
    /// Whether the server asks for the quality of protection `auth`.
    pub qop_auth: bool,
    /// How many requests have been answered.
    pub nc: u32,
}

/// The value of the `Authorization` header that answers a Digest challenge
/// for the request `method` of `uri`:
///
/// `Digest username="…", realm="…", nonce="…", uri="…", response="…"`,
/// followed by `, qop=auth, nc=…, cnonce=…` where the server asks for the
/// quality of protection `auth`, with the count of this request in eight
/// hexadecimal digits, and by `, opaque="…"` where the server has sent one.
pub open spec fn spec_digest_header(
    digest: DigestModel,
    username: Seq<u8>,
    password: Seq<u8>,
    method: Seq<u8>,
    uri: Seq<u8>,
    cnonce: Seq<u8>,
) -> Seq<u8> {
    let nc = (digest.nc + 1) as u32;
    let response = spec_response(
        spec_ha1(username, digest.realm, password),
        digest.nonce,
        digest.qop_auth,
        nc,
        cnonce,
        spec_ha2(method, uri),
    );
    spec_ascii("Digest username="@) + spec_quote(username) + spec_ascii(", realm="@) + spec_quote(
        digest.realm,
    ) + spec_ascii(", nonce="@) + spec_quote(digest.nonce) + spec_ascii(", uri="@) + spec_quote(
        uri,
    ) + spec_ascii(", response="@) + spec_quote(response) + (if digest.qop_auth {
        spec_ascii(", qop=auth, nc="@) + spec_hex8(nc) + spec_ascii(", cnonce="@) + cnonce
    } else {
        Seq::<u8>::empty()
    }) + (match digest.opaque {
        Some(opaque) => spec_ascii(", opaque="@) + spec_quote(opaque),
        None => Seq::<u8>::empty(),
    })
}

/// The value of the `Authorization` header that answers a Basic challenge:
/// `Basic`, and name and password in base64 with a colon between them.
pub open spec fn spec_basic_header(username: Seq<u8>, password: Seq<u8>) -> Seq<u8> {
    spec_ascii("Basic "@) + base64(username + spec_colon() + password)
}

/// Appends the bytes of `part` to `out`.
pub fn push_all(out: &mut Vec<u8>, part: &[u8])
    ensures
        final(out)@ == old(out)@ + part@,
{
    let mut at: usize = 0;
    while at < part.len()
        invariant
            0 <= at <= part@.len(),
            out@ == old(out)@ + part@.take(at as int),
        decreases part@.len() - at,
    {
        out.push(part[at]);
        at = at + 1;
        assert(out@ =~= old(out)@ + part@.take(at as int));
    }
    assert(part@.take(part@.len() as int) =~= part@);
}

/// Appends the bytes of the ASCII text `text` to `out`.
pub fn push_ascii(out: &mut Vec<u8>, text: &str)
    requires
        text.is_ascii(),
    ensures
        final(out)@ == old(out)@ + spec_ascii(text@),
{
    proof {
        vstd::string::is_ascii_spec_bytes(text);
    }
    let bytes = text.as_bytes();
    assert(bytes@ =~= spec_ascii(text@));
    push_all(out, bytes);
}

/// Appends `s` as a quoted string to `out`.
pub fn push_quoted(out: &mut Vec<u8>, s: &[u8])
    ensures
        final(out)@ == old(out)@ + spec_quote(s@),
{
    out.push(0x22);
    let mut at: usize = 0;
    while at < s.len()
        invariant
            0 <= at <= s@.len(),
            out@ == old(out)@ + seq![0x22u8] + spec_escape(s@.take(at as int)),
        decreases s@.len() - at,
    {
        let b: u8 = s[at];
        proof {
            let seen = s@.take(at + 1);
            assert(seen.last() == b);
            assert(seen.drop_last() =~= s@.take(at as int));
        }
        if b == 0x22 || b == 0x5C {
            out.push(0x5C);
        }
        out.push(b);
        at = at + 1;
        assert(out@ =~= old(out)@ + seq![0x22u8] + spec_escape(s@.take(at as int)));
    }
    assert(s@.take(s@.len() as int) =~= s@);
    out.push(0x22);
    assert(out@ =~= old(out)@ + spec_quote(s@));
}

/// The hexadecimal digit of a number below 16.
fn hex_digit(d: u32) -> (r: u8)
    requires
        d < 16,
    ensures
        r == spec_hex_digit(d),
{
    if d < 10 {
        (0x30 + d) as u8
    } else {
        (0x61 + d - 10) as u8
    }
}

/// Appends the eight hexadecimal digits of `n` to `out`.
pub fn push_hex8(out: &mut Vec<u8>, n: u32)
    ensures
        final(out)@ == old(out)@ + spec_hex8(n),
{
    out.push(hex_digit((n / 0x1000_0000) % 16));
    out.push(hex_digit((n / 0x100_0000) % 16));
    out.push(hex_digit((n / 0x10_0000) % 16));
    out.push(hex_digit((n / 0x1_0000) % 16));
    out.push(hex_digit((n / 0x1000) % 16));
    out.push(hex_digit((n / 0x100) % 16));
    out.push(hex_digit((n / 0x10) % 16));
    out.push(hex_digit(n % 16));
    assert(out@ =~= old(out)@ + spec_hex8(n));
}

/// There are two digits for each byte.
pub proof fn lemma_hex_len(bytes: Seq<u8>)
    ensures
        spec_hex(bytes).len() == 2 * bytes.len(),
    decreases bytes.len(),
{
    if bytes.len() > 0 {
        lemma_hex_len(bytes.drop_last());
    }
}

/// Prints `bytes` in hexadecimal digits in lower case, two for each byte.
pub fn hex(bytes: &[u8]) -> (r: Vec<u8>)
    ensures
        r@ == spec_hex(bytes@),
        r@.len() == 2 * bytes@.len(),
{
    let mut out: Vec<u8> = Vec::new();
    let mut at: usize = 0;
    while at < bytes.len()
        invariant
            0 <= at <= bytes@.len(),
            out@ == spec_hex(bytes@.take(at as int)),
        decreases bytes@.len() - at,
    {
        let b: u8 = bytes[at];
        proof {
            let seen = bytes@.take(at + 1);
            assert(seen.last() == b);
            assert(seen.drop_last() =~= bytes@.take(at as int));
        }
        out.push(hex_digit((b / 16) as u32));
        out.push(hex_digit((b % 16) as u32));
        at = at + 1;
        assert(out@ =~= spec_hex(bytes@.take(at as int)));
    }
    proof {
        assert(bytes@.take(bytes@.len() as int) =~= bytes@);
        lemma_hex_len(bytes@);
    }
    out
}

/// The MD5 digest of `data`, in 32 hexadecimal digits in lower case.
pub fn md5_hex_of(data: &[u8]) -> (r: Vec<u8>)
    ensures
        r@ == md5_hex(data@),
        r@.len() == 32,
{
    let digest = md5_digest_of(data);
    hex(digest.as_slice())
}

/// The digest of `first`, a colon and `second`.
fn digest_of_two(first: &[u8], second: &[u8]) -> (r: Vec<u8>)
    ensures
        r@ == md5_hex(first@ + spec_colon() + second@),
{
    let mut data: Vec<u8> = Vec::new();
    push_all(&mut data, first);
    data.push(0x3A);
    push_all(&mut data, second);
    assert(data@ =~= first@ + spec_colon() + second@);
    md5_hex_of(data.as_slice())
}

/// Computes the answer to a Digest challenge.
pub fn response(
    username: &[u8],
    realm: &[u8],
    password: &[u8],
    nonce: &[u8],
    qop_auth: bool,
    nc: u32,
    cnonce: &[u8],
    method: &[u8],
    uri: &[u8],
) -> (r: Vec<u8>)
    ensures
        r@ == spec_response(
            spec_ha1(username@, realm@, password@),
            nonce@,
            qop_auth,
            nc,
            cnonce@,
            spec_ha2(method@, uri@),
        ),
{
    let mut a1: Vec<u8> = Vec::new();
    push_all(&mut a1, username);
    a1.push(0x3A);
    push_all(&mut a1, realm);
    a1.push(0x3A);
    push_all(&mut a1, password);
    assert(a1@ =~= username@ + spec_colon() + realm@ + spec_colon() + password@);
    let ha1 = md5_hex_of(a1.as_slice());
    let ha2 = digest_of_two(method, uri);
    let mut data: Vec<u8> = Vec::new();
    push_all(&mut data, ha1.as_slice());
    data.push(0x3A);
    push_all(&mut data, nonce);
    data.push(0x3A);
    if qop_auth {
        push_hex8(&mut data, nc);
        data.push(0x3A);
        push_all(&mut data, cnonce);
        data.push(0x3A);
        data.push(0x61);
        data.push(0x75);
        data.push(0x74);
        data.push(0x68);
        data.push(0x3A);
        push_all(&mut data, ha2.as_slice());
        assert(data@ =~= ha1@ + spec_colon() + nonce@ + spec_colon() + spec_hex8(nc) + spec_colon()
            + cnonce@ + spec_colon() + spec_auth() + spec_colon() + ha2@);
    } else {
        push_all(&mut data, ha2.as_slice());
        assert(data@ =~= ha1@ + spec_colon() + nonce@ + spec_colon() + ha2@);
    }
    md5_hex_of(data.as_slice())
}

/// What a client keeps of a Digest challenge to answer it with each
/// request.
#[derive(Clone, Debug, PartialEq, Eq)]
pub struct Digest {
    /// The realm.
    pub realm: Vec<u8>,
    /// The server's nonce.
    pub nonce: Vec<u8>,
    /// What the server wants to get back as it is, if anything.
    pub opaque: Option<Vec<u8>>,
    /// Whether the server asks for the quality of protection `auth`.
    pub qop_auth: bool,
    /// How many requests have been answered.
    pub nc: u32,
}

impl View for Digest {
    type V = DigestModel;

    open spec fn view(&self) -> DigestModel {
        DigestModel {
            realm: self.realm@,
            nonce: self.nonce@,
            opaque: match self.opaque {
                Some(o) => Some(o@),
                None => None,
            },
            qop_auth: self.qop_auth,
            nc: self.nc,
        }
    }
}

impl Digest {
    /// Writes the value of the `Authorization` header for the request
    /// `method` of `uri`, with `cnonce` as the client's nonce, and counts
    /// the request.
    pub fn authorize_with(
        &mut self,
        username: &[u8],
        password: &[u8],
        method: &[u8],
        uri: &[u8],
        cnonce: &[u8],
    ) -> (r: Vec<u8>)
        requires
            old(self)@.nc < u32::MAX,
        ensures
            r@ == spec_digest_header(old(self)@, username@, password@, method@, uri@, cnonce@),
            final(self)@ == (DigestModel { nc: (old(self)@.nc + 1) as u32, ..old(self)@ }),
    {
        self.nc = self.nc + 1;
        let answer = response(
            username,
            self.realm.as_slice(),
            password,
            self.nonce.as_slice(),
            self.qop_auth,
            self.nc,
            cnonce,
            method,
            uri,
        );
        proof {
            reveal_strlit("Digest username=");
            reveal_strlit(", realm=");
            reveal_strlit(", nonce=");
            reveal_strlit(", uri=");
            reveal_strlit(", response=");
            reveal_strlit(", qop=auth, nc=");
            reveal_strlit(", cnonce=");
            reveal_strlit(", opaque=");
        }
        let mut out: Vec<u8> = Vec::new();
        push_ascii(&mut out, "Digest username=");
        push_quoted(&mut out, username);
        push_ascii(&mut out, ", realm=");
        push_quoted(&mut out, self.realm.as_slice());
        push_ascii(&mut out, ", nonce=");
        push_quoted(&mut out, self.nonce.as_slice());
        push_ascii(&mut out, ", uri=");
        push_quoted(&mut out, uri);
        push_ascii(&mut out, ", response=");
        push_quoted(&mut out, answer.as_slice());
        let ghost head = out@;
        if self.qop_auth {
            push_ascii(&mut out, ", qop=auth, nc=");
            push_hex8(&mut out, self.nc);
            push_ascii(&mut out, ", cnonce=");
            push_all(&mut out, cnonce);
        }
        let ghost middle = out@;
        match &self.opaque {
            Some(opaque) => {
                push_ascii(&mut out, ", opaque=");
                push_quoted(&mut out, opaque.as_slice());
            },
            None => {},
        }
        proof {
            let digest = old(self)@;
            let nc = (digest.nc + 1) as u32;
            let qop = if digest.qop_auth {
                spec_ascii(", qop=auth, nc="@) + spec_hex8(nc) + spec_ascii(", cnonce="@) + cnonce@
            } else {
                Seq::<u8>::empty()
            };
            let tail = match digest.opaque {
                Some(opaque) => spec_ascii(", opaque="@) + spec_quote(opaque),
                None => Seq::<u8>::empty(),
            };
            assert(middle =~= head + qop);
            assert(out@ =~= middle + tail);
            assert(head =~= spec_ascii("Digest username="@) + spec_quote(username@) + spec_ascii(
                ", realm="@,
            ) + spec_quote(digest.realm) + spec_ascii(", nonce="@) + spec_quote(digest.nonce)
                + spec_ascii(", uri="@) + spec_quote(uri@) + spec_ascii(", response="@)
                + spec_quote(answer@));
        }
        out
    }

    /// Writes the value of the `Authorization` header for the request
    /// `method` of `uri` by the caller `credentials`, with a client's nonce
    /// of eight hexadecimal digits that chance decides, and counts the
    /// request.
    pub fn authorize(&mut self, credentials: &Credentials, method: &[u8], uri: &[u8]) -> (r: Vec<
        u8,
    >)
        requires
            old(self)@.nc < u32::MAX,
        ensures
            exists|drawn: u32|
                r@ == #[trigger] spec_digest_header(
                    old(self)@,
                    credentials.spec_username(),
                    credentials.spec_password(),
                    method@,
                    uri@,
                    spec_hex8(drawn),
                ),
            final(self)@ == (DigestModel { nc: (old(self)@.nc + 1) as u32, ..old(self)@ }),
    {
        let high: u16 = draw(0, 0xFFFF);
        let low: u16 = draw(0, 0xFFFF);
        let drawn: u32 = (high as u32) * 0x1_0000 + (low as u32);
        let mut cnonce: Vec<u8> = Vec::new();
        push_hex8(&mut cnonce, drawn);
        assert(cnonce@ =~= spec_hex8(drawn));
        let r = self.authorize_with(
            credentials.username.as_str().as_bytes(),
            credentials.password.as_str().as_bytes(),
            method,
            uri,
            cnonce.as_slice(),
        );
        assert(r@ == spec_digest_header(
            old(self)@,
            credentials.spec_username(),
            credentials.spec_password(),
            method@,
            uri@,
            spec_hex8(drawn),
        ));
        r
    }
}

/// Writes the value of the `Authorization` header that answers a Basic
/// challenge for the caller `credentials`, unless name and password are
/// too long to be encoded.
pub fn authorize_basic(credentials: &Credentials) -> (r: Option<Vec<u8>>)
    ensures
        match r {
            Some(header) => header@ == spec_basic_header(
                credentials.spec_username(),
                credentials.spec_password(),
            ),
            None => credentials.spec_username().len() + credentials.spec_password().len()
                >= BASE64_INPUT_LIMIT,
        },
{
    let username = credentials.username.as_str().as_bytes();
    let password = credentials.password.as_str().as_bytes();
    if username.len() >= BASE64_INPUT_LIMIT || password.len() >= BASE64_INPUT_LIMIT
        - username.len() {
        None
    } else {
        Some(basic_header(username, password))
    }
}

/// Writes the value of the `Authorization` header that answers a Basic
/// challenge.
pub fn basic_header(username: &[u8], password: &[u8]) -> (r: Vec<u8>)
    requires
        username@.len() + password@.len() < BASE64_INPUT_LIMIT,
    ensures
        r@ == spec_basic_header(username@, password@),
{
    let mut plain: Vec<u8> = Vec::new();
    push_all(&mut plain, username);
    plain.push(0x3A);
    push_all(&mut plain, password);
    assert(plain@ =~= username@ + spec_colon() + password@);
    let encoded = base64_of(plain.as_slice());
    proof {
        reveal_strlit("Basic ");
    }
    let mut out: Vec<u8> = Vec::new();
    push_ascii(&mut out, "Basic ");
    push_all(&mut out, encoded.as_slice());
    out
}

/// A letter in lower case, and any other byte as it is.
pub open spec fn spec_lower(b: u8) -> u8 {
    if 0x41 <= b <= 0x5A {
        (b + 0x20) as u8
    } else {
        b
    }
}

/// `s` with its letters in lower case.
pub open spec fn spec_lowered(s: Seq<u8>) -> Seq<u8> {
    Seq::new(s.len(), |i: int| spec_lower(s[i]))
}

/// The index of the first white space in `s`, or the length of `s` if
/// there is none.
pub open spec fn spec_word_end(s: Seq<u8>) -> int
    decreases s.len(),
{
    if s.len() == 0 || spec_is_space(s[0]) {
        0
    } else {
        1 + spec_word_end(s.drop_first())
    }
}

/// The index of the first comma in `s` that is not within a quoted string,
/// or the length of `s` if there is none. `quoted` says whether `s` starts
/// within a quoted string. Within one, a backslash takes the next byte with
/// it.
pub open spec fn spec_param_end(s: Seq<u8>, quoted: bool) -> int
    decreases s.len(),
{
    if s.len() == 0 {
        0
    } else if quoted {
        if s[0] == 0x5C && s.len() >= 2 {
            2 + spec_param_end(s.skip(2), true)
        } else if s[0] == 0x22 {
            1 + spec_param_end(s.skip(1), false)
        } else {
            1 + spec_param_end(s.skip(1), true)
        }
    } else if s[0] == 0x2C {
        0
    } else if s[0] == 0x22 {
        1 + spec_param_end(s.skip(1), true)
    } else {
        1 + spec_param_end(s.skip(1), false)
    }
}

/// `s` without the backslashes that take the next byte with them.
pub open spec fn spec_unescape(s: Seq<u8>) -> Seq<u8>
    decreases s.len(),
{
    if s.len() == 0 {
        s
    } else if s[0] == 0x5C && s.len() >= 2 {
        seq![s[1]] + spec_unescape(s.skip(2))
    } else {
        seq![s[0]] + spec_unescape(s.skip(1))
    }
}

/// What the value `raw` of a parameter stands for: what is between its
/// quotation marks, if it has them, and itself otherwise.
pub open spec fn spec_unquote(raw: Seq<u8>) -> Seq<u8> {
    if raw.len() >= 2 && raw[0] == 0x22 && raw.last() == 0x22 {
        spec_unescape(raw.subrange(1, raw.len() - 1))
    } else {
        raw
    }
}

/// What a challenge says.
pub struct ChallengeModel {
    /// The scheme.
    pub scheme: Scheme,
    /// The realm, or nothing where none is given.
    pub realm: Seq<u8>,
    /// The server's nonce, if it gives one.
    pub nonce: Option<Seq<u8>>,
    /// What the server wants to get back as it is, if anything.
    pub opaque: Option<Seq<u8>>,
    /// Whether the server asks for the quality of protection `auth`.
    pub qop_auth: bool,
}

/// `realm`
pub open spec fn spec_key_realm() -> Seq<u8> {
    seq![0x72u8, 0x65u8, 0x61u8, 0x6Cu8, 0x6Du8]
}

/// `nonce`
pub open spec fn spec_key_nonce() -> Seq<u8> {
    seq![0x6Eu8, 0x6Fu8, 0x6Eu8, 0x63u8, 0x65u8]
}

/// `opaque`
pub open spec fn spec_key_opaque() -> Seq<u8> {
    seq![0x6Fu8, 0x70u8, 0x61u8, 0x71u8, 0x75u8, 0x65u8]
}

/// `qop`
pub open spec fn spec_key_qop() -> Seq<u8> {
    seq![0x71u8, 0x6Fu8, 0x70u8]
}

/// `basic`
pub open spec fn spec_name_basic() -> Seq<u8> {
    seq![0x62u8, 0x61u8, 0x73u8, 0x69u8, 0x63u8]
}

/// `digest`
pub open spec fn spec_name_digest() -> Seq<u8> {
    seq![0x64u8, 0x69u8, 0x67u8, 0x65u8, 0x73u8, 0x74u8]
}

/// The challenge `challenge` with what the parameter `param` says: a name
/// in any case, an equals sign and a value, which may be a quoted string,
/// with white space around each. The names `realm`, `nonce`, `opaque`
/// and `qop` are taken, and of `qop` whether `auth` is among its items.
/// Anything else says nothing.
pub open spec fn spec_with_auth_param(challenge: ChallengeModel, param: Seq<u8>) -> ChallengeModel {
    let eq = spec_index_of(param, 0x3D);
    if eq >= param.len() {
        challenge
    } else {
        let key = spec_lowered(spec_trim(param.take(eq)));
        let value = spec_unquote(spec_trim(param.skip(eq + 1)));
        if key == spec_key_realm() {
            ChallengeModel { realm: value, ..challenge }
        } else if key == spec_key_nonce() {
            ChallengeModel { nonce: Some(value), ..challenge }
        } else if key == spec_key_opaque() {
            ChallengeModel { opaque: Some(value), ..challenge }
        } else if key == spec_key_qop() {
            ChallengeModel { qop_auth: spec_lists(value, spec_auth()), ..challenge }
        } else {
            challenge
        }
    }
}

/// The challenge `challenge` with what the parameters `rest` say, which
/// are separated by commas that are not within quoted strings. `None` stands
/// for no parameter at all.
pub open spec fn spec_with_auth_params(challenge: ChallengeModel, rest: Option<Seq<u8>>) -> ChallengeModel
    decreases
            (match rest {
                Some(r) => r.len() + 1,
                None => 0,
            }),
{
    match rest {
        None => challenge,
        Some(r) => {
            let end = spec_param_end(r, false);
            spec_with_auth_params(
                spec_with_auth_param(challenge, r.take(end)),
                if 0 <= end < r.len() {
                    Some(r.skip(end + 1))
                } else {
                    None
                },
            )
        },
    }
}

/// What the value of a `WWW-Authenticate` header says: the name of a
/// scheme, in any case, and parameters after it. There is none for another
/// scheme than Basic and Digest.
pub open spec fn spec_challenge(value: Seq<u8>) -> Option<ChallengeModel> {
    let v = spec_trim(value);
    let end = spec_word_end(v);
    let name = spec_lowered(v.take(end));
    let start = ChallengeModel {
        scheme: Scheme::Basic,
        realm: Seq::empty(),
        nonce: None,
        opaque: None,
        qop_auth: false,
    };
    if name == spec_name_digest() {
        Some(
            spec_with_auth_params(
                ChallengeModel { scheme: Scheme::Digest, ..start },
                Some(v.skip(end)),
            ),
        )
    } else if name == spec_name_basic() {
        Some(spec_with_auth_params(start, Some(v.skip(end))))
    } else {
        None
    }
}

/// A challenge of a server.
#[derive(Clone, Debug, PartialEq, Eq)]
pub struct Challenge {
    /// The scheme.
    pub scheme: Scheme,
    /// The realm, or nothing where none is given.
    pub realm: Vec<u8>,
    /// The server's nonce, if it gives one.
    pub nonce: Option<Vec<u8>>,
    /// What the server wants to get back as it is, if anything.
    pub opaque: Option<Vec<u8>>,
    /// Whether the server asks for the quality of protection `auth`.
    pub qop_auth: bool,
}

/// The bytes of a sequence of bytes that may not be there.
pub open spec fn spec_bytes_view(bytes: Option<Vec<u8>>) -> Option<Seq<u8>> {
    match bytes {
        Some(b) => Some(b@),
        None => None,
    }
}

impl View for Challenge {
    type V = ChallengeModel;

    open spec fn view(&self) -> ChallengeModel {
        ChallengeModel {
            scheme: self.scheme,
            realm: self.realm@,
            nonce: spec_bytes_view(self.nonce),
            opaque: spec_bytes_view(self.opaque),
            qop_auth: self.qop_auth,
        }
    }
}

/// A letter in lower case, and any other byte as it is.
pub fn lower(b: u8) -> (r: u8)
    ensures
        r == spec_lower(b),
{
    if 0x41 <= b && b <= 0x5A {
        b + 0x20
    } else {
        b
    }
}

/// Whether the bytes from `from` up to `to` are the bytes of `token` but
/// for the case of their letters. `token` has to be in lower case.
pub fn equals_lowered(buf: &[u8], from: usize, to: usize, token: &[u8]) -> (r: bool)
    requires
        from <= to <= buf@.len(),
    ensures
        r == (spec_lowered(buf@.subrange(from as int, to as int)) == token@),
{
    if to - from != token.len() {
        return false;
    }
    let ghost part = spec_lowered(buf@.subrange(from as int, to as int));
    let mut at: usize = 0;
    while at < token.len()
        invariant
            from <= to <= buf@.len(),
            to - from == token@.len(),
            0 <= at <= token@.len(),
            part == spec_lowered(buf@.subrange(from as int, to as int)),
            forall|i: int| 0 <= i < at ==> part[i] == #[trigger] token@[i],
        decreases token@.len() - at,
    {
        if lower(buf[from + at]) != token[at] {
            proof {
                assert(part[at as int] != token@[at as int]);
            }
            return false;
        }
        at = at + 1;
    }
    proof {
        assert(part =~= token@);
    }
    true
}

/// Finds the first white space among the bytes from `from` up to `to`.
pub fn word_end(buf: &[u8], from: usize, to: usize) -> (r: usize)
    requires
        from <= to <= buf@.len(),
    ensures
        r == from + spec_word_end(buf@.subrange(from as int, to as int)),
        from <= r <= to,
{
    let mut at: usize = from;
    while at < to && !is_space(buf[at])
        invariant
            from <= at <= to <= buf@.len(),
            spec_word_end(buf@.subrange(from as int, to as int)) == (at - from) + spec_word_end(
                buf@.subrange(at as int, to as int),
            ),
        decreases to - at,
    {
        proof {
            let rest = buf@.subrange(at as int, to as int);
            assert(rest[0] == buf@[at as int]);
            assert(rest.drop_first() =~= buf@.subrange(at + 1, to as int));
        }
        at = at + 1;
    }
    proof {
        let rest = buf@.subrange(at as int, to as int);
        if at < to {
            assert(rest[0] == buf@[at as int]);
        }
    }
    at
}

/// Finds the first comma that is not within a quoted string among the
/// bytes from `from` up to `to`.
pub fn param_end(buf: &[u8], from: usize, to: usize) -> (r: usize)
    requires
        from <= to <= buf@.len(),
    ensures
        r == from + spec_param_end(buf@.subrange(from as int, to as int), false),
        from <= r <= to,
{
    let mut at: usize = from;
    let mut quoted: bool = false;
    loop
        invariant
            from <= at <= to <= buf@.len(),
            spec_param_end(buf@.subrange(from as int, to as int), false) == (at - from)
                + spec_param_end(buf@.subrange(at as int, to as int), quoted),
        decreases to - at,
    {
        let ghost rest = buf@.subrange(at as int, to as int);
        if at == to {
            return at;
        }
        let b: u8 = buf[at];
        proof {
            assert(rest[0] == b);
            assert(rest.skip(1) =~= buf@.subrange(at + 1, to as int));
        }
        if quoted {
            if b == 0x5C && to - at >= 2 {
                proof {
                    assert(rest.skip(2) =~= buf@.subrange(at + 2, to as int));
                }
                at = at + 2;
            } else {
                if b == 0x22 {
                    quoted = false;
                }
                at = at + 1;
            }
        } else {
            if b == 0x2C {
                return at;
            }
            if b == 0x22 {
                quoted = true;
            }
            at = at + 1;
        }
    }
}

/// Copies the bytes from `from` up to `to` without the backslashes that
/// take the next byte with them.
pub fn unescape(buf: &[u8], from: usize, to: usize) -> (r: Vec<u8>)
    requires
        from <= to <= buf@.len(),
    ensures
        r@ == spec_unescape(buf@.subrange(from as int, to as int)),
{
    let mut out: Vec<u8> = Vec::new();
    let mut at: usize = from;
    while at < to
        invariant
            from <= at <= to <= buf@.len(),
            spec_unescape(buf@.subrange(from as int, to as int)) == out@ + spec_unescape(
                buf@.subrange(at as int, to as int),
            ),
        decreases to - at,
    {
        let ghost rest = buf@.subrange(at as int, to as int);
        let ghost before = out@;
        let b: u8 = buf[at];
        proof {
            assert(rest[0] == b);
        }
        if b == 0x5C && to - at >= 2 {
            proof {
                assert(rest[1] == buf@[at + 1]);
                assert(rest.skip(2) =~= buf@.subrange(at + 2, to as int));
            }
            out.push(buf[at + 1]);
            at = at + 2;
            proof {
                assert(out@ + spec_unescape(buf@.subrange(at as int, to as int)) =~= before + (
                seq![rest[1]] + spec_unescape(rest.skip(2))));
            }
        } else {
            proof {
                assert(rest.skip(1) =~= buf@.subrange(at + 1, to as int));
            }
            out.push(b);
            at = at + 1;
            proof {
                assert(out@ + spec_unescape(buf@.subrange(at as int, to as int)) =~= before + (
                seq![rest[0]] + spec_unescape(rest.skip(1))));
            }
        }
    }
    proof {
        assert(buf@.subrange(to as int, to as int) =~= Seq::<u8>::empty());
        assert(out@ + Seq::<u8>::empty() =~= out@);
    }
    out
}

/// Reads what the value in the bytes from `from` up to `to` stands for.
pub fn unquote(buf: &[u8], from: usize, to: usize) -> (r: Vec<u8>)
    requires
        from <= to <= buf@.len(),
    ensures
        r@ == spec_unquote(buf@.subrange(from as int, to as int)),
{
    let ghost raw = buf@.subrange(from as int, to as int);
    if to - from >= 2 && buf[from] == 0x22 && buf[to - 1] == 0x22 {
        proof {
            assert(raw[0] == buf@[from as int]);
            assert(raw.last() == buf@[to - 1]);
            assert(raw.subrange(1, raw.len() - 1) =~= buf@.subrange(from + 1, to - 1));
        }
        unescape(buf, from + 1, to - 1)
    } else {
        proof {
            if raw.len() >= 2 {
                assert(raw[0] == buf@[from as int]);
                assert(raw.last() == buf@[to - 1]);
            }
        }
        vstd::slice::slice_to_vec(vstd::slice::slice_subrange(buf, from, to))
    }
}

/// Takes what the parameter in the bytes from `from` up to `to` says into
/// `challenge`.
fn with_auth_param(challenge: &mut Challenge, buf: &[u8], from: usize, to: usize)
    requires
        from <= to <= buf@.len(),
    ensures
        final(challenge)@ == spec_with_auth_param(
            old(challenge)@,
            buf@.subrange(from as int, to as int),
        ),
{
    let ghost param = buf@.subrange(from as int, to as int);
    let eq: usize = index_of(buf, from, to, 0x3D);
    if eq == to {
        return ;
    }
    proof {
        assert(param.take(eq - from) =~= buf@.subrange(from as int, eq as int));
        assert(param.skip(eq - from + 1) =~= buf@.subrange(eq + 1, to as int));
    }
    let (key_from, key_to) = trim(buf, from, eq);
    let (value_from, value_to) = trim(buf, eq + 1, to);
    let key_realm: [u8; 5] = [0x72, 0x65, 0x61, 0x6C, 0x6D];
    let key_nonce: [u8; 5] = [0x6E, 0x6F, 0x6E, 0x63, 0x65];
    let key_opaque: [u8; 6] = [0x6F, 0x70, 0x61, 0x71, 0x75, 0x65];
    let key_qop: [u8; 3] = [0x71, 0x6F, 0x70];
    let auth: [u8; 4] = [0x61, 0x75, 0x74, 0x68];
    proof {
        assert(key_realm@ =~= spec_key_realm());
        assert(key_nonce@ =~= spec_key_nonce());
        assert(key_opaque@ =~= spec_key_opaque());
        assert(key_qop@ =~= spec_key_qop());
        assert(auth@ =~= spec_auth());
    }
    if equals_lowered(buf, key_from, key_to, key_realm.as_slice()) {
        challenge.realm = unquote(buf, value_from, value_to);
    } else if equals_lowered(buf, key_from, key_to, key_nonce.as_slice()) {
        challenge.nonce = Some(unquote(buf, value_from, value_to));
    } else if equals_lowered(buf, key_from, key_to, key_opaque.as_slice()) {
        challenge.opaque = Some(unquote(buf, value_from, value_to));
    } else if equals_lowered(buf, key_from, key_to, key_qop.as_slice()) {
        let value = unquote(buf, value_from, value_to);
        challenge.qop_auth = lists(value.as_slice(), auth.as_slice());
    }
}

/// Reads the value of a `WWW-Authenticate` header: the name of a scheme
/// and the parameters of the challenge. There is no challenge for another
/// scheme than Basic and Digest.
pub fn challenge(value: &[u8]) -> (r: Option<Challenge>)
    ensures
        match spec_challenge(value@) {
            Some(c) => r is Some && r->Some_0@ == c,
            None => r is None,
        },
{
    let (from, to) = trim(value, 0, value.len());
    proof {
        assert(value@.subrange(0, value@.len() as int) =~= value@);
    }
    let ghost v = value@.subrange(from as int, to as int);
    let end: usize = word_end(value, from, to);
    proof {
        assert(v.take(end - from) =~= value@.subrange(from as int, end as int));
        assert(v.skip(end - from) =~= value@.subrange(end as int, to as int));
    }
    let name_basic: [u8; 5] = [0x62, 0x61, 0x73, 0x69, 0x63];
    let name_digest: [u8; 6] = [0x64, 0x69, 0x67, 0x65, 0x73, 0x74];
    proof {
        assert(name_basic@ =~= spec_name_basic());
        assert(name_digest@ =~= spec_name_digest());
    }
    let scheme = if equals_lowered(value, from, end, name_digest.as_slice()) {
        Scheme::Digest
    } else if equals_lowered(value, from, end, name_basic.as_slice()) {
        Scheme::Basic
    } else {
        return None;
    };
    let mut challenge = Challenge {
        scheme,
        realm: Vec::new(),
        nonce: None,
        opaque: None,
        qop_auth: false,
    };
    let ghost start = challenge@;
    let mut at: usize = end;
    let mut more: bool = true;
    while more
        invariant
            from <= at <= to <= value@.len(),
            !more ==> at == to,
            spec_with_auth_params(start, Some(value@.subrange(end as int, to as int)))
                == spec_with_auth_params(
                challenge@,
                if more {
                    Some(value@.subrange(at as int, to as int))
                } else {
                    None
                },
            ),
        decreases to - at + (if more { 1int } else { 0int }),
    {
        let ghost rest = value@.subrange(at as int, to as int);
        let next: usize = param_end(value, at, to);
        proof {
            assert(rest.take(next - at) =~= value@.subrange(at as int, next as int));
        }
        with_auth_param(&mut challenge, value, at, next);
        if next == to {
            more = false;
            at = to;
        } else {
            proof {
                assert(rest.skip(next - at + 1) =~= value@.subrange(next + 1, to as int));
            }
            at = next + 1;
        }
    }
    Some(challenge)
}

/// Whether a challenge can be answered: a Basic challenge always, a Digest
/// challenge if the server gives a nonce.
pub open spec fn spec_answerable(challenge: ChallengeModel) -> bool {
    challenge.scheme is Basic || challenge.nonce is Some
}

/// Whether the challenge at the place `at` is the one to answer: the first
/// Digest challenge that can be answered, or the first Basic challenge if
/// there is no such Digest challenge.
pub open spec fn spec_is_choice(challenges: Seq<Challenge>, at: int) -> bool {
    &&& 0 <= at < challenges.len()
    &&& spec_answerable(challenges[at]@)
    &&& forall|i: int|
        0 <= i < at ==> !(#[trigger] challenges[i]@.scheme == challenges[at]@.scheme
            && spec_answerable(challenges[i]@))
    &&& challenges[at]@.scheme is Basic ==> forall|i: int|
        0 <= i < challenges.len() ==> !(#[trigger] challenges[i]@.scheme is Digest
            && spec_answerable(challenges[i]@))
}

/// Chooses the challenge to answer among the challenges of a response, in
/// the order of its headers: Digest is preferred over Basic. There is none
/// to choose if none can be answered.
pub fn choose_challenge(challenges: &Vec<Challenge>) -> (r: Option<usize>)
    ensures
        match r {
            Some(at) => spec_is_choice(challenges@, at as int),
            None => forall|i: int|
                0 <= i < challenges@.len() ==> !spec_answerable(#[trigger] challenges@[i]@),
        },
{
    let mut basic: Option<usize> = None;
    let mut at: usize = 0;
    while at < challenges.len()
        invariant
            0 <= at <= challenges@.len(),
            forall|i: int|
                0 <= i < at ==> !(#[trigger] challenges@[i]@.scheme is Digest && spec_answerable(
                    challenges@[i]@,
                )),
            match basic {
                Some(b) => b < at && challenges@[b as int]@.scheme is Basic && forall|i: int|
                    0 <= i < b ==> !(#[trigger] challenges@[i]@.scheme is Basic),
                None => forall|i: int| 0 <= i < at ==> !(#[trigger] challenges@[i]@.scheme is Basic),
            },
        decreases challenges@.len() - at,
    {
        match challenges[at].scheme {
            Scheme::Digest => {
                if challenges[at].nonce.is_some() {
                    return Some(at);
                }
            },
            Scheme::Basic => {
                if basic.is_none() {
                    basic = Some(at);
                }
            },
        }
        at = at + 1;
    }
    basic
}

impl Challenge {
    /// What is kept of a Digest challenge to answer it, if it is one that
    /// can be answered.
    pub fn to_digest(self) -> (r: Option<Digest>)
        ensures
            match (self@.scheme, self@.nonce) {
                (Scheme::Digest, Some(nonce)) => r is Some && r->Some_0@ == (DigestModel {
                    realm: self@.realm,
                    nonce,
                    opaque: self@.opaque,
                    qop_auth: self@.qop_auth,
                    nc: 0,
                }),
                _ => r is None,
            },
    {
        match self.scheme {
            Scheme::Digest => match self.nonce {
                Some(nonce) => Some(
                    Digest {
                        realm: self.realm,
                        nonce,
                        opaque: self.opaque,
                        qop_auth: self.qop_auth,
                        nc: 0,
                    },
                ),
                None => None,
            },
            Scheme::Basic => None,
        }
    }
}

} // verus!
