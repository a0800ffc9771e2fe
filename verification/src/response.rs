//! What the installer reads of an HTTP response: its status and two headers.

use crate::text;
use vstd::prelude::*;

verus! {

/// The status of a response that holds only the requested range.
pub const PARTIAL_CONTENT: u16 = 206;

/// The head of a response, as far as a download depends on it. A header is
/// held as the raw bytes of its value, `None` where the response has no such
/// header.
#[derive(Debug)]
pub struct ResponseHead {
    pub status: u16,
    pub content_length: Option<Vec<u8>>,
    pub content_range: Option<Vec<u8>>,
}

/// A status that reports success.
pub open spec fn is_success(status: u16) -> bool {
    200 <= status < 300
}

/// A byte that may stand in a header value read as text: visible ASCII, a
/// blank or a tab.
pub open spec fn is_text_byte(b: u8) -> bool {
    32 <= b < 127 || b == 9
}

/// The value of a header read as text, if all its bytes may stand in one.
pub open spec fn header_chars(value: Seq<u8>) -> Option<Seq<char>> {
    if forall|i: int| 0 <= i < value.len() ==> is_text_byte(#[trigger] value[i]) {
        Some(Seq::new(value.len(), |i: int| value[i] as char))
    } else {
        None
    }
}

/// The number that a header holds, if the header is there and holds one.
pub open spec fn header_number(header: Option<Vec<u8>>) -> Option<u64> {
    match header {
        Some(value) => match header_chars(value@) {
            Some(chars) => text::parsed_u64(chars),
            None => None,
        },
        None => None,
    }
}

/// The total that a content range ends with, as in `bytes 10-19/20`. An
/// unknown total (`*`) is no number.
pub open spec fn range_total(header: Option<Vec<u8>>) -> Option<u64> {
    match header {
        Some(value) => match header_chars(value@) {
            Some(chars) => text::parsed_u64(text::after_last(chars, '/')),
            None => None,
        },
        None => None,
    }
}

impl ResponseHead {
    /// The size of the whole file according to this response to a request
    /// that resumes after `resumed` bytes.
    pub open spec fn whole_size(self, resumed: nat) -> Option<nat> {
        if self.status == PARTIAL_CONTENT {
            match range_total(self.content_range) {
                Some(total) => Some(total as nat),
                None => match header_number(self.content_length) {
                    Some(length) => Some(length as nat + resumed),
                    None => None,
                },
            }
        } else {
            match header_number(self.content_length) {
                Some(length) => Some(length as nat),
                None => None,
            }
        }
    }

    /// The size of the whole file, if the response tells one, fits in 64 bits.
    pub open spec fn size_fits(self, resumed: nat) -> bool {
        self.whole_size(resumed) matches Some(total) ==> total <= u64::MAX
    }
}

/// Calls `reqwest::StatusCode::is_success`: whether the code lies in 200-299.
/// A number that is no status code (`reqwest::StatusCode::from_u16` takes 100
/// to 999) is no success either.
#[verifier::external_body]
pub(crate) fn status_is_success(code: u16) -> (res: bool)
    ensures
        res == is_success(code),
{
    match reqwest::StatusCode::from_u16(code) {
        Ok(status) => status.is_success(),
        Err(_) => false,
    }
}

/// Calls `reqwest::header::HeaderValue::to_str` on a header value with the
/// given bytes: it gives the bytes as ASCII text where each of them is visible
/// ASCII, a blank or a tab, and an error otherwise. Bytes that no header value
/// can hold (`reqwest::header::HeaderValue::from_bytes` refuses them) are among
/// the latter.
#[verifier::external_body]
fn header_text(value: &Vec<u8>) -> (res: Option<String>)
    ensures
        res is Some == header_chars(value@) is Some,
        res matches Some(chars) ==> header_chars(value@) == Some(chars@),
{
    let header = reqwest::header::HeaderValue::from_bytes(value).ok()?;
    Some(header.to_str().ok()?.to_owned())
}

/// The number in a header, if the header is there and holds one.
pub fn header_to_u64(header: &Option<Vec<u8>>) -> (res: Option<u64>)
    ensures
        res == header_number(*header),
{
    match header {
        Some(value) => match header_text(value) {
            Some(chars) => text::parse_u64(chars.as_str()),
            None => None,
        },
        None => None,
    }
}

/// The size of the whole file according to the content range of a response.
pub fn parse_content_range_total(response: &ResponseHead) -> (res: Option<u64>)
    ensures
        res == range_total(response.content_range),
{
    match &response.content_range {
        Some(value) => match header_text(value) {
            Some(chars) => {
                let total: &str = text::last_part(chars.as_str(), '/');
                if text::same_text(total, "*") {
                    proof {
                        reveal_strlit("*");
                        let digits = text::without_plus("*"@);
                        assert(!text::is_digit(digits[0]));
                    }
                    return None;
                }
                text::parse_u64(total)
            },
            None => None,
        },
        None => None,
    }
}

/// The size of the whole file according to a response to a request that
/// resumes after `resumed_bytes` bytes.
pub fn total_bytes_from_response(response: &ResponseHead, resumed_bytes: u64) -> (res: Option<u64>)
    requires
        response.size_fits(resumed_bytes as nat),
    ensures
        res is Some == response.whole_size(resumed_bytes as nat) is Some,
        res matches Some(total) ==> response.whole_size(resumed_bytes as nat) == Some(total as nat),
{
    if response.status == PARTIAL_CONTENT {
        match parse_content_range_total(response) {
            Some(total) => Some(total),
            None => match header_to_u64(&response.content_length) {
                Some(length) => Some(length + resumed_bytes),
                None => None,
            },
        }
    } else {
        header_to_u64(&response.content_length)
    }
}

/// Whether the size of the whole file, as the response tells it, fits in 64 bits.
pub fn total_fits(response: &ResponseHead, resumed_bytes: u64) -> (res: bool)
    ensures
        res == response.size_fits(resumed_bytes as nat),
{
    if response.status != PARTIAL_CONTENT {
        return true;
    }
    match parse_content_range_total(response) {
        Some(_) => true,
        None => match header_to_u64(&response.content_length) {
            Some(length) => length <= u64::MAX - resumed_bytes,
            None => true,
        },
    }
}

/// The size that a response to a request for the head alone tells; nothing
/// where the request failed or was refused.
pub open spec fn probed_size(response: Option<ResponseHead>) -> Option<u64> {
    match response {
        Some(head) => if is_success(head.status) {
            header_number(head.content_length)
        } else {
            None
        },
        None => None,
    }
}

/// The size of the remote file, from the response to a request for its head.
/// `response` is `None` where the request got none.
pub fn probe_remote_size(response: &Option<ResponseHead>) -> (res: Option<u64>)
    ensures
        res == probed_size(*response),
{
    match response {
        Some(head) => {
            if !status_is_success(head.status) {
                return None;
            }
            header_to_u64(&head.content_length)
        },
        None => None,
    }
}

} // verus!
