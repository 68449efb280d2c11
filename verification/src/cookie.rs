//! The AniGamer cookie: how it is stored, and how its request-header form is
//! turned into the records that a cookie jar stores.
use vstd::prelude::*;

use crate::text::{
    chars_eq, chars_to_string, split_chars, split_on, str_chars, trim, trim_chars,
    trim_line_endings, trim_line_endings_chars,
};

verus! {

/// The parent domain that the stored cookies are shared across, so that both
/// `ani.gamer.com.tw` and `api.gamer.com.tw` receive them.
pub const COOKIE_DOMAIN: &'static str = "gamer.com.tw";

/// The cookie as a browser sends it in a `Cookie` request header
/// (`name=value` pairs separated by semicolons).
#[derive(Debug, Clone, PartialEq, Eq)]
pub struct Cookie(pub String);

impl Default for Cookie {
    /// The empty cookie, which a fresh installation without a cookie file has.
    fn default() -> (c: Self)
        ensures
            c.0@ == Seq::<char>::empty(),
    {
        Cookie(String::new())
    }
}

impl Cookie {
    /// A cookie holding exactly `cookie`.
    pub fn new(cookie: &str) -> (c: Cookie)
        ensures
            c.0@ == cookie@,
    {
        Cookie(String::from_str(cookie))
    }

    /// The cookie text.
    pub fn as_str(&self) -> (s: &str)
        ensures
            s@ == self.0@,
    {
        self.0.as_str()
    }

    /// The cookie text, by value.
    pub fn into_inner(self) -> (s: String)
        ensures
            s == self.0,
    {
        self.0
    }

    /// A copy of the cookie text.
    pub fn to_string(&self) -> (s: String)
        ensures
            s@ == self.0@,
    {
        self.0.clone()
    }

    /// Replaces the cookie text.
    pub fn set_cookie(&mut self, cookie: &str)
        ensures
            final(self).0@ == cookie@,
    {
        self.0 = String::from_str(cookie);
    }

    /// The cookie stored in a cookie file with contents `contents`: the
    /// contents without their trailing line endings.
    pub fn from_file_contents(contents: &str) -> (c: Cookie)
        ensures
            c.0@ == trim_line_endings(contents@),
    {
        let cs = str_chars(contents);
        let kept = trim_line_endings_chars(cs.as_slice());
        Cookie(chars_to_string(kept.as_slice()))
    }
}

/// A cookie written to the cookie file reads back unchanged when it does not
/// end in a line ending.
pub proof fn law_written_cookie_reads_back(text: Seq<char>)
    requires
        text.len() == 0 || (text.last() != '\r' && text.last() != '\n'),
    ensures
        trim_line_endings(text) == text,
{
}

/// Line endings after the cookie in the cookie file do not change the cookie
/// that is read.
pub proof fn law_trailing_line_endings_ignored(text: Seq<char>, tail: Seq<char>)
    requires
        forall|i: int| 0 <= i < tail.len() ==> #[trigger] tail[i] == '\r' || tail[i] == '\n',
    ensures
        trim_line_endings(text + tail) == trim_line_endings(text),
    decreases tail.len(),
{
    if tail.len() > 0 {
        let shorter = tail.drop_last();
        assert((text + tail).drop_last() =~= text + shorter);
        assert((text + tail).last() == tail.last());
        assert(tail[tail.len() - 1] == '\r' || tail[tail.len() - 1] == '\n');
        law_trailing_line_endings_ignored(text, shorter);
    } else {
        assert(text + tail =~= text);
    }
}

/// The `name=value` pairs of a list of header pieces: each piece trimmed,
/// the empty ones left out.
pub open spec fn cookie_pairs(pieces: Seq<Seq<char>>) -> Seq<Seq<char>>
    decreases pieces.len(),
{
    if pieces.len() == 0 {
        Seq::empty()
    } else {
        let prev = cookie_pairs(pieces.drop_last());
        let t = trim(pieces.last());
        if t.len() > 0 {
            prev.push(t)
        } else {
            prev
        }
    }
}

/// The `name=value` pairs of a `Cookie` request header.
pub open spec fn header_cookie_pairs(header: Seq<char>) -> Seq<Seq<char>> {
    cookie_pairs(split_on(header, ';'))
}

/// The text appended to each pair to make it a cookie record of the shared
/// parent domain.
pub open spec fn domain_attribute() -> Seq<char> {
    "; Domain="@ + COOKIE_DOMAIN@
}

/// The `Set-Cookie`-style records, one per `name=value` pair of the request
/// header `header`, each scoped to the shared parent domain: the pairs are
/// the semicolon-separated pieces, trimmed, with the empty ones left out.
pub fn cookie_records(header: &str) -> (r: Vec<String>)
    ensures
        r@.len() == header_cookie_pairs(header@).len(),
        forall|i: int|
            0 <= i < r@.len() ==> #[trigger] r@[i]@ == header_cookie_pairs(header@)[i]
                + domain_attribute(),
{
    let cs = str_chars(header);
    let pieces = split_chars(cs.as_slice(), ';');
    let ghost all = split_on(header@, ';');
    let mut out: Vec<String> = Vec::new();
    let mut i: usize = 0;
    assert(all.take(0) =~= Seq::<Seq<char>>::empty());
    while i < pieces.len()
        invariant
            pieces@.len() == all.len(),
            forall|k: int| 0 <= k < pieces@.len() ==> #[trigger] pieces@[k]@ == all[k],
            0 <= i <= pieces@.len(),
            out@.len() == cookie_pairs(all.take(i as int)).len(),
            forall|k: int|
                0 <= k < out@.len() ==> #[trigger] out@[k]@ == cookie_pairs(all.take(i as int))[k]
                    + domain_attribute(),
        decreases pieces@.len() - i,
    {
        let t = trim_chars(pieces[i].as_slice());
        assert(all.take(i + 1).drop_last() =~= all.take(i as int));
        assert(all.take(i + 1).last() == all[i as int]);
        if t.len() > 0 {
            let record = chars_to_string(t.as_slice()).concat("; Domain=").concat(COOKIE_DOMAIN);
            out.push(record);
        }
        i = i + 1;
    }
    assert(all.take(all.len() as int) =~= all);
    out
}

/// The text to hand to the cookie observer after a change of the jar: the
/// new snapshot when it differs from the one taken before, nothing otherwise.
pub fn changed_snapshot(before: &str, after: String) -> (r: Option<String>)
    ensures
        r == (if before@ == after@ {
            None
        } else {
            Some(after)
        }),
{
    let b = str_chars(before);
    let a = str_chars(after.as_str());
    if chars_eq(b.as_slice(), a.as_slice()) {
        None
    } else {
        Some(after)
    }
}

} // verus!
