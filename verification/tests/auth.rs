use retina::client::auth::{
    authorize_basic, basic_header, challenge, choose_challenge, equals_lowered, lower, param_end, push_all,
    push_ascii, push_hex8, push_quoted, response, unescape, unquote, word_end, Challenge,
    Credentials, Digest, Scheme,
};
use retina::client::session::{DescribeAction, DescribeState};

fn text(bytes: &[u8]) -> &str {
    std::str::from_utf8(bytes).unwrap()
}

#[test]
fn digest_response_of_rfc_2617() {
    let r = response(
        b"Mufasa",
        b"testrealm@host.com",
        b"Circle Of Life",
        b"dcd98b7102dd2f0e8b11d0f600bfb0c093",
        true,
        1,
        b"0a4f113b",
        b"GET",
        b"/dir/index.html",
    );
    assert_eq!(text(&r), "6629fae49393a05397450978507c4ef1");
}

#[test]
fn digest_response_without_qop() {
    let ha1 = format!("{:x}", md5::compute(b"u:r:p"));
    let ha2 = format!("{:x}", md5::compute(b"DESCRIBE:rtsp://example/stream"));
    let expected = format!("{:x}", md5::compute(format!("{}:n:{}", ha1, ha2)));
    let r = response(b"u", b"r", b"p", b"n", false, 7, b"ignored", b"DESCRIBE", b"rtsp://example/stream");
    assert_eq!(text(&r), expected);
    assert_eq!(r.len(), 32);
}

#[test]
fn describe_is_retried_with_a_digest_answer() {
    // DESCRIBE rtsp://example/stream is answered with 401 and a challenge.
    let creds = Credentials { username: String::from("u"), password: String::from("p") };
    let mut describe = DescribeState::new();
    assert_eq!(describe.on_response(401, true, false, 3), DescribeAction::Authenticate);
    let challenges = vec![challenge(b"Digest realm=\"r\", nonce=\"n\", qop=\"auth\"").unwrap()];
    let chosen = choose_challenge(&challenges).unwrap();
    let mut digest = challenges[chosen].clone().to_digest().unwrap();
    assert_eq!(
        digest,
        Digest { realm: b"r".to_vec(), nonce: b"n".to_vec(), opaque: None, qop_auth: true, nc: 0 }
    );
    let header = digest.authorize(&creds, b"DESCRIBE", b"rtsp://example/stream");
    let header = text(&header).to_owned();
    let (head, cnonce) = header.split_at(header.len() - 8);
    assert!(cnonce.bytes().all(|b| b.is_ascii_digit() || (b'a'..=b'f').contains(&b)), "{}", cnonce);
    let ha1 = format!("{:x}", md5::compute(b"u:r:p"));
    let ha2 = format!("{:x}", md5::compute(b"DESCRIBE:rtsp://example/stream"));
    let expected =
        format!("{:x}", md5::compute(format!("{}:n:00000001:{}:auth:{}", ha1, cnonce, ha2)));
    assert_eq!(
        head,
        format!(
            "Digest username=\"u\", realm=\"r\", nonce=\"n\", uri=\"rtsp://example/stream\", \
             response=\"{}\", qop=auth, nc=00000001, cnonce=",
            expected
        )
    );
    assert_eq!(digest.nc, 1);
    // The second answer counts on.
    let second = digest.authorize_with(b"u", b"p", b"SETUP", b"rtsp://example/stream/trackID=0", b"01234567");
    assert!(text(&second).ends_with(", qop=auth, nc=00000002, cnonce=01234567"));
    assert_eq!(digest.nc, 2);
    // A second challenge is not answered.
    assert_eq!(
        describe.on_response(401, true, false, 3),
        DescribeAction::Fail(retina::ErrorKind::Unauthorized)
    );
}

#[test]
fn digest_header_with_opaque_and_without_qop() {
    let mut digest = Digest {
        realm: b"a \"b\"".to_vec(),
        nonce: b"n\\1".to_vec(),
        opaque: Some(b"o".to_vec()),
        qop_auth: false,
        nc: 41,
    };
    let header = digest.authorize_with(b"u", b"p", b"PLAY", b"rtsp://x/", b"00000000");
    let ha1 = format!("{:x}", md5::compute(b"u:a \"b\":p"));
    let ha2 = format!("{:x}", md5::compute(b"PLAY:rtsp://x/"));
    let expected = format!("{:x}", md5::compute(format!("{}:n\\1:{}", ha1, ha2)));
    assert_eq!(
        text(&header),
        format!(
            "Digest username=\"u\", realm=\"a \\\"b\\\"\", nonce=\"n\\\\1\", uri=\"rtsp://x/\", \
             response=\"{}\", opaque=\"o\"",
            expected
        )
    );
    assert_eq!(digest.nc, 42);
}

#[test]
fn basic_header_of_rfc_2617() {
    assert_eq!(
        text(&basic_header(b"Aladdin", b"open sesame")),
        "Basic QWxhZGRpbjpvcGVuIHNlc2FtZQ=="
    );
    assert_eq!(text(&basic_header(b"", b"")), "Basic Og==");
    let creds = Credentials { username: String::from("Aladdin"), password: String::from("open sesame") };
    assert_eq!(text(&authorize_basic(&creds).unwrap()), "Basic QWxhZGRpbjpvcGVuIHNlc2FtZQ==");
    let creds = Credentials { username: String::from("\u{e9}"), password: String::new() };
    assert_eq!(text(&authorize_basic(&creds).unwrap()), "Basic w6k6");
}

#[test]
fn challenges_are_read() {
    assert_eq!(
        challenge(b"Digest realm=\"r\", nonce=\"n\", qop=\"auth\""),
        Some(Challenge {
            scheme: Scheme::Digest,
            realm: b"r".to_vec(),
            nonce: Some(b"n".to_vec()),
            opaque: None,
            qop_auth: true,
        })
    );
    assert_eq!(
        challenge(b"  dIGEST   Realm = \"IP Camera(C2224)\" ,NONCE=abc, Opaque=\"a,\\\"b\", \
                    qop=\"auth-int, auth\", algorithm=MD5, stale=\"FALSE\"  "),
        Some(Challenge {
            scheme: Scheme::Digest,
            realm: b"IP Camera(C2224)".to_vec(),
            nonce: Some(b"abc".to_vec()),
            opaque: Some(b"a,\"b".to_vec()),
            qop_auth: true,
        })
    );
    assert_eq!(
        challenge(b"Basic realm=\"r\""),
        Some(Challenge {
            scheme: Scheme::Basic,
            realm: b"r".to_vec(),
            nonce: None,
            opaque: None,
            qop_auth: false,
        })
    );
    assert_eq!(
        challenge(b"BASIC"),
        Some(Challenge {
            scheme: Scheme::Basic,
            realm: Vec::new(),
            nonce: None,
            opaque: None,
            qop_auth: false,
        })
    );
    assert_eq!(
        challenge(b"Digest qop=\"auth-int\", realm=a, realm=b, nonce, =x, nonce=\"\""),
        Some(Challenge {
            scheme: Scheme::Digest,
            realm: b"b".to_vec(),
            nonce: Some(Vec::new()),
            opaque: None,
            qop_auth: false,
        })
    );
    assert_eq!(challenge(b"Negotiate"), None);
    assert_eq!(challenge(b""), None);
    assert_eq!(challenge(b"Digestrealm=\"r\""), None);
    assert_eq!(challenge(b"Bearer realm=\"r\""), None);
}

#[test]
fn digest_is_preferred_over_basic() {
    let basic = challenge(b"Basic realm=\"r\"").unwrap();
    let digest = challenge(b"Digest realm=\"r\", nonce=\"n\"").unwrap();
    let other = challenge(b"Digest realm=\"r\", nonce=\"m\"").unwrap();
    let useless = challenge(b"Digest realm=\"r\"").unwrap();
    assert_eq!(choose_challenge(&vec![]), None);
    assert_eq!(choose_challenge(&vec![basic.clone()]), Some(0));
    assert_eq!(choose_challenge(&vec![basic.clone(), digest.clone()]), Some(1));
    assert_eq!(choose_challenge(&vec![digest.clone(), basic.clone()]), Some(0));
    assert_eq!(choose_challenge(&vec![basic.clone(), digest.clone(), other.clone()]), Some(1));
    assert_eq!(choose_challenge(&vec![useless.clone()]), None);
    assert_eq!(choose_challenge(&vec![useless.clone(), basic.clone(), basic.clone()]), Some(1));
    assert_eq!(choose_challenge(&vec![useless.clone(), other.clone(), basic.clone()]), Some(1));
    assert!(basic.clone().to_digest().is_none());
    assert!(useless.to_digest().is_none());
    assert_eq!(other.to_digest().unwrap().nonce, b"m");
}

#[test]
fn byte_builders() {
    let mut out = b">".to_vec();
    push_all(&mut out, b"ab");
    push_ascii(&mut out, ", c=");
    push_quoted(&mut out, b"d\"e\\f");
    push_hex8(&mut out, 0x0123_4567);
    push_hex8(&mut out, 0x89AB_CDEF);
    push_hex8(&mut out, 0);
    assert_eq!(text(&out), ">ab, c=\"d\\\"e\\\\f\"0123456789abcdef00000000");
}

#[test]
fn scanning_helpers() {
    assert_eq!(lower(b'A'), b'a');
    assert_eq!(lower(b'Z'), b'z');
    assert_eq!(lower(b'a'), b'a');
    assert_eq!(lower(b'@'), b'@');
    assert_eq!(lower(b'['), b'[');
    assert!(equals_lowered(b"ReAlM=", 0, 5, b"realm"));
    assert!(!equals_lowered(b"ReAlM=", 0, 6, b"realm"));
    assert!(!equals_lowered(b"nonce", 0, 5, b"realm"));
    assert_eq!(word_end(b"Digest  realm", 0, 13), 6);
    assert_eq!(word_end(b"Digest", 0, 6), 6);
    assert_eq!(word_end(b" x", 0, 2), 0);
    let s = b"a=\"x,y\", b=\"\\\",\", c";
    assert_eq!(param_end(s, 0, s.len()), 7);
    assert_eq!(param_end(s, 8, s.len()), 16);
    assert_eq!(param_end(s, 17, s.len()), s.len());
    assert_eq!(param_end(b"\"a,b", 0, 4), 4);
    assert_eq!(param_end(b"\"a\\", 0, 3), 3);
    assert_eq!(unescape(b"a\\\"b\\\\c\\", 0, 8), b"a\"b\\c\\".to_vec());
    assert_eq!(unquote(b"\"a\\\"b\"", 0, 6), b"a\"b".to_vec());
    assert_eq!(unquote(b"abc", 0, 3), b"abc".to_vec());
    assert_eq!(unquote(b"\"", 0, 1), b"\"".to_vec());
    assert_eq!(unquote(b"\"\"", 0, 2), Vec::<u8>::new());
    assert_eq!(unquote(b"\"a", 0, 2), b"\"a".to_vec());
}

#[test]
fn hex_prints_two_digits_for_each_byte() {
    assert_eq!(retina::client::auth::hex(&[]), b"".to_vec());
    assert_eq!(retina::client::auth::hex(&[0x00, 0x0f, 0xa0, 0xff, 0x3c]), b"000fa0ff3c".to_vec());
}

#[test]
fn md5_hex_of_known_inputs() {
    assert_eq!(
        retina::client::auth::md5_hex_of(b""),
        b"d41d8cd98f00b204e9800998ecf8427e".to_vec()
    );
    assert_eq!(
        retina::client::auth::md5_hex_of(b"abc"),
        b"900150983cd24fb0d6963f7d28e17f72".to_vec()
    );
    assert_eq!(
        retina::client::auth::md5_hex_of(b"The quick brown fox jumps over the lazy dog"),
        b"9e107d9d372bb6826bd81d3542a419d6".to_vec()
    );
}
