use retina::headers::{x_accept_dynamic_rate, x_dynamic_rate};
use retina::text::{decimal_len, push_decimal, push_decimal_padded};
use retina::as_range;

#[test]
fn as_range_of_a_part() {
    let buf = *b"DESCRIBE rtsp://example/stream RTSP/1.0";
    let subset = &buf[9..30];
    let r = as_range(buf.as_ptr() as usize, buf.len(), subset.as_ptr() as usize, subset.len());
    assert_eq!(r, Some(9..30));
    assert_eq!(&buf[r.unwrap()], b"rtsp://example/stream");
    let whole = as_range(buf.as_ptr() as usize, buf.len(), buf.as_ptr() as usize, buf.len());
    assert_eq!(whole, Some(0..buf.len()));
    let last = &buf[buf.len() - 1..];
    assert_eq!(
        as_range(buf.as_ptr() as usize, buf.len(), last.as_ptr() as usize, 1),
        Some(buf.len() - 1..buf.len())
    );
}

#[test]
fn as_range_of_an_empty_part_is_none() {
    let buf = [1u8, 2, 3];
    assert_eq!(as_range(buf.as_ptr() as usize, 3, buf.as_ptr() as usize + 1, 0), None);
    assert_eq!(as_range(1_000, 3, 5, 0), None);
    assert_eq!(as_range(0, 0, 0, 0), None);
}

#[test]
fn header_names_keep_their_case() {
    assert_eq!(x_accept_dynamic_rate().as_str(), "x-Accept-Dynamic-Rate");
    assert_eq!(x_dynamic_rate().as_str(), "x-Dynamic-Rate");
    assert_eq!(
        x_dynamic_rate(),
        rtsp_types::HeaderName::from_static_str("X-DYNAMIC-RATE").unwrap()
    );
}

#[test]
fn decimal_text() {
    for (n, text) in [
        (0u64, "0"),
        (7, "7"),
        (10, "10"),
        (99, "99"),
        (100, "100"),
        (65_535, "65535"),
        (1_234_567_890, "1234567890"),
        (u64::MAX, "18446744073709551615"),
    ] {
        let mut out = String::from(">");
        push_decimal(&mut out, n);
        assert_eq!(out, format!(">{}", text));
        assert_eq!(decimal_len(n), text.len());
    }
}

#[test]
fn padded_decimal_text() {
    for (n, width, text) in [
        (0u64, 3usize, "000"),
        (7, 3, "007"),
        (42, 3, "042"),
        (999, 3, "999"),
        (1_000, 3, "1000"),
        (5, 2, "05"),
        (5, 1, "5"),
        (5, 0, "5"),
        (0, 0, "0"),
        (12, 6, "000012"),
    ] {
        let mut out = String::new();
        push_decimal_padded(&mut out, n, width);
        assert_eq!(out, text);
        assert_eq!(out, format!("{:0width$}", n, width = width));
    }
}
