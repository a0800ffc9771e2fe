use gtlite_installer::response::{
    header_to_u64, parse_content_range_total, probe_remote_size, total_bytes_from_response,
    total_fits, ResponseHead, PARTIAL_CONTENT,
};

fn head(status: u16, length: Option<&[u8]>, range: Option<&[u8]>) -> ResponseHead {
    ResponseHead {
        status,
        content_length: length.map(<[u8]>::to_vec),
        content_range: range.map(<[u8]>::to_vec),
    }
}

#[test]
fn partial_content_is_the_status_of_that_name() {
    assert_eq!(PARTIAL_CONTENT, reqwest::StatusCode::PARTIAL_CONTENT.as_u16());
}

#[test]
fn headers_hold_numbers() {
    assert_eq!(header_to_u64(&None), None);
    assert_eq!(header_to_u64(&Some(b"123".to_vec())), Some(123));
    assert_eq!(header_to_u64(&Some(b"+5".to_vec())), Some(5));
    assert_eq!(header_to_u64(&Some(b"".to_vec())), None);
    assert_eq!(header_to_u64(&Some(b" 5".to_vec())), None);
    assert_eq!(header_to_u64(&Some(b"\t5".to_vec())), None);
    assert_eq!(header_to_u64(&Some(b"5\xff".to_vec())), None);
    assert_eq!(header_to_u64(&Some(b"5\x00".to_vec())), None);
    assert_eq!(header_to_u64(&Some("５".as_bytes().to_vec())), None);
}

#[test]
fn content_range_tells_the_total() {
    let total = |range: Option<&[u8]>| parse_content_range_total(&head(206, None, range));
    assert_eq!(total(None), None);
    assert_eq!(total(Some(b"bytes 10-19/20")), Some(20));
    assert_eq!(total(Some(b"bytes 10-19/*")), None);
    assert_eq!(total(Some(b"bytes 10-19")), None);
    assert_eq!(total(Some(b"a/b/7")), Some(7));
    assert_eq!(total(Some(b"7")), Some(7));
    assert_eq!(total(Some(b"bytes 0-1/")), None);
    assert_eq!(total(Some(b"bytes\xff0-1/2")), None);
    assert_eq!(total(Some(b"bytes\t0-1/2")), Some(2));
}

#[test]
fn totals_come_from_range_or_length() {
    let both = head(206, Some(b"10"), Some(b"bytes 10-19/20"));
    assert_eq!(total_bytes_from_response(&both, 10), Some(20));
    let length = head(206, Some(b"10"), Some(b"bytes 10-19/*"));
    assert_eq!(total_bytes_from_response(&length, 10), Some(20));
    assert_eq!(total_bytes_from_response(&head(206, None, None), 10), None);
    let whole = head(200, Some(b"20"), Some(b"bytes 0-1/99"));
    assert_eq!(total_bytes_from_response(&whole, 0), Some(20));
}

#[test]
fn totals_that_do_not_fit_are_found() {
    let longest = head(206, Some(b"18446744073709551615"), None);
    assert!(total_fits(&longest, 0));
    assert!(!total_fits(&longest, 1));
    assert!(total_fits(&head(206, Some(b"18446744073709551615"), Some(b"b/5")), 1));
    assert!(total_fits(&head(200, Some(b"18446744073709551615"), None), 1));
}

#[test]
fn probe_needs_success() {
    assert_eq!(probe_remote_size(&None), None);
    for status in 0..1100_u16 {
        let expected = match reqwest::StatusCode::from_u16(status) {
            Ok(code) if code.is_success() => Some(9),
            _ => None,
        };
        assert_eq!(probe_remote_size(&Some(head(status, Some(b"9"), None))), expected);
    }
    assert_eq!(probe_remote_size(&Some(head(200, None, None))), None);
}
