//! Which addresses a reported page may be restored to.
use vstd::prelude::*;
use vstd::utf8::encode_utf8;
use crate::text::str_eq;

verus! {

/// The longest address, in bytes, that a restored page may load.
pub const MAX_RESTORE_URL_BYTES: usize = 8192;

/// The scheme that `url::Url::parse` finds in `input`, when it parses.
pub uninterp spec fn parsed_scheme(input: Seq<char>) -> Option<Seq<char>>;

/// `url::Url::parse`, read through `Url::scheme`. Its contract claims only
/// that the outcome is a function of `input`: the scheme of the parsed URL,
/// or nothing when parsing fails. What the WHATWG parser accepts is left
/// unsaid.
#[verifier::external_body]
fn parse_scheme(input: &str) -> (r: Option<String>)
    ensures
        match r {
            Some(s) => parsed_scheme(input@) == Some(s@),
            None => parsed_scheme(input@) is None,
        },
{
    match url::Url::parse(input) {
        Ok(url) => Some(url.scheme().to_string()),
        Err(_) => None,
    }
}

/// A restored page may load `url` when it is at most 8192 bytes long and
/// parses with the scheme `http` or `https`.
pub open spec fn restore_url_accepted(url: Seq<char>, scheme: Option<Seq<char>>) -> bool {
    encode_utf8(url).len() <= MAX_RESTORE_URL_BYTES && match scheme {
        Some(s) => s == "http"@ || s == "https"@,
        None => false,
    }
}

/// The decision on an address, given the scheme its parse gave (if any).
pub fn accepts_restore_url(url: &str, scheme: Option<&str>) -> (r: bool)
    ensures
        r == restore_url_accepted(
            url@,
            match scheme {
                Some(s) => Some(s@),
                None => None,
            },
        ),
{
    if url.as_bytes().len() > MAX_RESTORE_URL_BYTES {
        return false;
    }
    match scheme {
        Some(s) => str_eq(s, "http") || str_eq(s, "https"),
        None => false,
    }
}

/// Whether a reported page's address may be restored: short enough, and a
/// web address.
pub fn restore_url_valid(url: &str) -> (r: bool)
    ensures
        r == restore_url_accepted(url@, parsed_scheme(url@)),
{
    if url.as_bytes().len() > MAX_RESTORE_URL_BYTES {
        return false;
    }
    let scheme = parse_scheme(url);
    match scheme {
        Some(s) => accepts_restore_url(url, Some(s.as_str())),
        None => accepts_restore_url(url, None),
    }
}

/// The most media elements a reported page may describe.
pub const MAX_MEDIA_ELEMENTS: usize = 16;

/// A page's report may be acted on: its address may be restored, it describes
/// at most `MAX_MEDIA_ELEMENTS` media elements, and its scroll position and
/// media values are valid (`page_ok`: finite coordinates; finite
/// non-negative media times, volumes in [0, 1], rates in (0, 16]).
pub open spec fn snapshot_accepted(url: Seq<char>, media_count: nat, page_ok: bool) -> bool {
    restore_url_accepted(url, parsed_scheme(url)) && media_count <= MAX_MEDIA_ELEMENTS && page_ok
}

/// Whether a page's report may be acted on, given its address, how many media
/// elements it describes and the verdict on its scroll and media values.
pub fn snapshot_valid(url: &str, media_count: usize, page_ok: bool) -> (r: bool)
    ensures
        r == snapshot_accepted(url@, media_count as nat, page_ok),
{
    restore_url_valid(url) && media_count <= MAX_MEDIA_ELEMENTS && page_ok
}

} // verus!
