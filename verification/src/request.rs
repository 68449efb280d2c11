//! Request-client decisions: which browser to emulate for a User-Agent, how
//! much of a response body a log line shows, and the shape of the playlist
//! answer.
use vstd::prelude::*;

use crate::text::{ascii_lower, ascii_lower_chars, contains_chars, contains_seq, str_chars};

verus! {

/// The browser whose TLS and HTTP/2 fingerprint the client emulates.
#[derive(Debug, Clone, Copy, PartialEq, Eq)]
pub enum BrowserEmulation {
    Firefox109,
    Edge134,
    Chrome137,
}

/// The browser to emulate for the User-Agent `ua`: Firefox when the
/// lower-cased User-Agent mentions `firefox`, otherwise Edge when it mentions
/// `edg`, otherwise Chrome.
pub open spec fn emulation_of(ua: Seq<char>) -> BrowserEmulation {
    let lower = ua.map_values(|c: char| ascii_lower(c));
    if contains_seq(lower, "firefox"@) {
        BrowserEmulation::Firefox109
    } else if contains_seq(lower, "edg"@) {
        BrowserEmulation::Edge134
    } else {
        BrowserEmulation::Chrome137
    }
}

/// The browser to emulate for the User-Agent `ua`.
pub fn emulation_for_ua(ua: &str) -> (e: BrowserEmulation)
    ensures
        e == emulation_of(ua@),
{
    let chars = str_chars(ua);
    let lower = ascii_lower_chars(chars.as_slice());
    let firefox = str_chars("firefox");
    let edg = str_chars("edg");
    if contains_chars(lower.as_slice(), firefox.as_slice()) {
        BrowserEmulation::Firefox109
    } else if contains_chars(lower.as_slice(), edg.as_slice()) {
        BrowserEmulation::Edge134
    } else {
        BrowserEmulation::Chrome137
    }
}

/// The most bytes of a response body that a log line shows.
pub const MAX_LOGGED_RESPONSE_BODY: usize = 8192;

/// How much of a body of `body_len` bytes a log line shows, and whether that
/// leaves part of it out.
pub fn log_preview(body_len: usize) -> (r: (usize, bool))
    ensures
        r.0 == (if body_len < MAX_LOGGED_RESPONSE_BODY {
            body_len
        } else {
            MAX_LOGGED_RESPONSE_BODY
        }),
        r.1 == (body_len > r.0),
{
    let n = if body_len < MAX_LOGGED_RESPONSE_BODY {
        body_len
    } else {
        MAX_LOGGED_RESPONSE_BODY
    };
    (n, body_len > n)
}

/// The playlist of one device type.
#[derive(Debug, Clone, PartialEq, Eq)]
pub struct Src {
    pub playlist: String,
}

/// A source offered for one device type.
#[derive(Debug, Clone, PartialEq, Eq)]
pub struct SrcUseCase {
    pub device_type: u32,
    pub src: Src,
}

/// The video source answer: the device id and the sources per device type.
#[derive(Debug, Clone, PartialEq, Eq)]
pub struct VideoSrc {
    pub deviceid: String,
    pub src_use_cases: Vec<SrcUseCase>,
}

} // verus!
