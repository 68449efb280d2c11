//! Conditional requests for cover images: `If-None-Match` matching against a
//! cover's entity tag, and what the cover endpoint answers.
use vstd::prelude::*;

use crate::ids::{uuid_text, uuid_text_spec};
use crate::stored::CoverImage;
use crate::text::{chars_eq, split_chars, split_on, str_chars, trim, trim_chars};

verus! {

/// `Cache-Control` of a cover response: cover rows are immutable.
pub const CACHE_CONTROL_VALUE: &'static str = "public, max-age=604800";

/// `Cache-Control` of the answer for a cover that does not exist.
pub const NOT_FOUND_CACHE_CONTROL_VALUE: &'static str = "public, max-age=300";

/// An entity tag without its weak marker `W/`.
pub open spec fn strip_weak(etag: Seq<char>) -> Seq<char> {
    if etag.len() >= 2 && etag[0] == 'W' && etag[1] == '/' {
        etag.skip(2)
    } else {
        etag
    }
}

/// A candidate of an `If-None-Match` list matches `etag`: it is the wildcard
/// `*`, or it names the same tag once weak markers are ignored.
pub open spec fn candidate_matches(candidate: Seq<char>, etag: Seq<char>) -> bool {
    candidate == seq!['*'] || strip_weak(candidate) == strip_weak(etag)
}

/// Some comma-separated, trimmed candidate of some `If-None-Match` header
/// value matches `etag`.
pub open spec fn header_values_match(values: Seq<Seq<char>>, etag: Seq<char>) -> bool {
    exists|i: int, j: int|
        0 <= i < values.len() && 0 <= j < split_on(values[i], ',').len() && candidate_matches(
            trim(#[trigger] split_on(values[i], ',')[j]),
            etag,
        )
}

/// The entity tag without its weak marker `W/`.
pub fn strip_weak_prefix(etag: &str) -> (r: &str)
    ensures
        r@ == strip_weak(etag@),
{
    let n = etag.unicode_len();
    if n >= 2 && etag.get_char(0) == 'W' && etag.get_char(1) == '/' {
        etag.substring_char(2, n)
    } else {
        etag
    }
}

fn strip_weak_chars(s: &[char]) -> (r: Vec<char>)
    ensures
        r@ == strip_weak(s@),
{
    let mut out: Vec<char> = Vec::new();
    let start: usize = if s.len() >= 2 && s[0] == 'W' && s[1] == '/' {
        2
    } else {
        0
    };
    let mut k: usize = start;
    while k < s.len()
        invariant
            start <= k <= s@.len(),
            out@ == s@.subrange(start as int, k as int),
        decreases s@.len() - k,
    {
        out.push(s[k]);
        k = k + 1;
        assert(out@ =~= s@.subrange(start as int, k as int));
    }
    assert(out@ =~= strip_weak(s@));
    out
}

fn candidate_matches_chars(candidate: &[char], etag: &[char]) -> (r: bool)
    ensures
        r == candidate_matches(candidate@, etag@),
{
    if candidate.len() == 1 && candidate[0] == '*' {
        assert(candidate@ =~= seq!['*']);
        return true;
    }
    let a = strip_weak_chars(candidate);
    let b = strip_weak_chars(etag);
    chars_eq(a.as_slice(), b.as_slice())
}

/// Whether the `If-None-Match` header values `header_values` (each a
/// comma-separated list of entity tags) match `etag`: some trimmed candidate
/// is `*` or equals `etag` once weak markers are ignored.
pub fn if_none_match(header_values: &Vec<String>, etag: &str) -> (r: bool)
    ensures
        r == header_values_match(header_values@.map_values(|v: String| v@), etag@),
{
    let ghost values = header_values@.map_values(|v: String| v@);
    let tag = str_chars(etag);
    let mut i: usize = 0;
    while i < header_values.len()
        invariant
            0 <= i <= header_values@.len(),
            values == header_values@.map_values(|v: String| v@),
            tag@ == etag@,
            forall|p: int, q: int|
                0 <= p < i && 0 <= q < split_on(values[p], ',').len() ==> !candidate_matches(
                    trim(#[trigger] split_on(values[p], ',')[q]),
                    etag@,
                ),
        decreases header_values@.len() - i,
    {
        let value = str_chars(header_values[i].as_str());
        assert(value@ == values[i as int]);
        let pieces = split_chars(value.as_slice(), ',');
        let mut j: usize = 0;
        while j < pieces.len()
            invariant
                0 <= i < header_values@.len(),
                0 <= j <= pieces@.len(),
                values == header_values@.map_values(|v: String| v@),
                tag@ == etag@,
                value@ == values[i as int],
                pieces@.len() == split_on(value@, ',').len(),
                forall|k: int| 0 <= k < pieces@.len() ==> #[trigger] pieces@[k]@ == split_on(value@, ',')[k],
                forall|q: int|
                    0 <= q < j ==> !candidate_matches(trim(#[trigger] split_on(values[i as int], ',')[q]), etag@),
            decreases pieces@.len() - j,
        {
            let candidate = trim_chars(pieces[j].as_slice());
            if candidate_matches_chars(candidate.as_slice(), tag.as_slice()) {
                assert(candidate_matches(trim(split_on(values[i as int], ',')[j as int]), etag@));
                return true;
            }
            j = j + 1;
        }
        i = i + 1;
    }
    false
}

/// What the cover endpoint answers for a stored cover.
pub enum CoverReply {
    /// `304 Not Modified`: the client's copy is current.
    NotModified,
    /// `200 OK` with the image.
    Image { mime_type: String, bytes: Vec<u8> },
}

/// The answer for a stored cover with entity tag `etag` to a request whose
/// `If-None-Match` header values are `header_values`.
pub fn cover_reply(header_values: &Vec<String>, etag: &str, mime_type: String, bytes: Vec<u8>) -> (r:
    CoverReply)
    ensures
        header_values_match(header_values@.map_values(|v: String| v@), etag@) ==> r
            is NotModified,
        !header_values_match(header_values@.map_values(|v: String| v@), etag@) ==> r
            == (CoverReply::Image { mime_type, bytes }),
{
    if if_none_match(header_values, etag) {
        CoverReply::NotModified
    } else {
        CoverReply::Image { mime_type, bytes }
    }
}

/// The entity tag of the cover whose row id has the text `id_text`: the id in
/// double quotes.
pub fn cover_etag(id_text: &str) -> (r: String)
    ensures
        r@ == seq!['"'] + id_text@ + seq!['"'],
{
    let r = String::from_str("\"").concat(id_text).concat("\"");
    proof {
        reveal_strlit("\"");
    }
    r
}

/// The answer of the cover endpoint for a stored cover: the reply, with the
/// cover's entity tag and caching policy.
pub struct CoverResponse {
    pub reply: CoverReply,
    pub etag: String,
    pub cache_control: String,
}

/// The answer for the stored cover `cover` to a request whose `If-None-Match`
/// header values are `header_values`. Cover rows never change, so the row id
/// in double quotes is a strong entity tag.
pub fn cover_response(header_values: &Vec<String>, cover: CoverImage) -> (r: CoverResponse)
    ensures
        r.etag@ == seq!['"'] + uuid_text_spec(cover.id) + seq!['"'],
        r.cache_control@ == CACHE_CONTROL_VALUE@,
        header_values_match(header_values@.map_values(|v: String| v@), r.etag@) ==> r.reply
            is NotModified,
        !header_values_match(header_values@.map_values(|v: String| v@), r.etag@) ==> r.reply
            == (CoverReply::Image { mime_type: cover.mime_type, bytes: cover.bytes }),
{
    let CoverImage { id, mime_type, bytes, .. } = cover;
    let id_text = uuid_text(id);
    let etag = cover_etag(id_text.as_str());
    let reply = cover_reply(header_values, etag.as_str(), mime_type, bytes);
    CoverResponse { reply, etag, cache_control: String::from_str(CACHE_CONTROL_VALUE) }
}

} // verus!
