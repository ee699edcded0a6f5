//! What the address bar opens: a typed address, or a search with the chosen
//! engine.
use vstd::prelude::*;
use vstd::utf8::encode_utf8;
use crate::text::{
    is_white_space, lemma_trim_end_shape, lemma_trim_of_trimmed, lemma_trim_start_shape, trim_start,    lemma_trim_idempotent,    lemma_lower_concat,    chars_of, contains_char, eq_ignore_case, has_prefix, is_prefix, lower, lower_vec, seq_eq, str_eq,
    trim, trim_str,
};

verus! {

/// A byte that the `application/x-www-form-urlencoded` serializer keeps as
/// it is: `*`, `-`, `.`, `_`, ASCII digits and letters.
pub open spec fn serialized_unchanged(b: u8) -> bool {
    b == 0x2A || b == 0x2D || b == 0x2E || (0x30 <= b && b <= 0x39) || (0x41 <= b && b <= 0x5A)
        || b == 0x5F || (0x61 <= b && b <= 0x7A)
}

/// An uppercase hexadecimal digit.
pub open spec fn hex_digit(n: int) -> char {
    if n < 10 {
        (48 + n) as char
    } else {
        (55 + n) as char
    }
}

/// How the serializer writes one byte: unchanged, `+` for a space, or `%XX`.
pub open spec fn form_urlencode_byte(b: u8) -> Seq<char> {
    if serialized_unchanged(b) {
        seq![b as char]
    } else if b == 0x20 {
        seq!['+']
    } else {
        seq!['%', hex_digit((b / 16) as int), hex_digit((b % 16) as int)]
    }
}

/// The `application/x-www-form-urlencoded` byte serializer.
pub open spec fn form_urlencoded(bytes: Seq<u8>) -> Seq<char>
    decreases bytes.len(),
{
    if bytes.len() == 0 {
        Seq::empty()
    } else {
        form_urlencoded(bytes.drop_last()) + form_urlencode_byte(bytes.last())
    }
}

/// `url::form_urlencoded::byte_serialize`, collected into a string. Its
/// contract claims that the crate serializes the UTF-8 bytes of `input` byte
/// by byte as `form_urlencode_byte` says: `*-._`, digits and ASCII letters
/// unchanged, space as `+`, any other byte as `%` and two uppercase hex digits.
#[verifier::external_body]
fn form_urlencode(input: &str) -> (r: String)
    ensures
        r@ == form_urlencoded(encode_utf8(input@)),
{
    url::form_urlencoded::byte_serialize(input.as_bytes()).collect()
}

/// The start page of a search engine; any name but `google` and `bing`
/// means DuckDuckGo.
pub open spec fn engine_home(engine: Seq<char>) -> Seq<char> {
    if engine == "google"@ {
        "https://www.google.com/"@
    } else if engine == "bing"@ {
        "https://www.bing.com/"@
    } else {
        "https://html.duckduckgo.com/html/"@
    }
}

/// The search address of an engine, to which the encoded query is appended.
pub open spec fn engine_search(engine: Seq<char>) -> Seq<char> {
    if engine == "google"@ {
        "https://www.google.com/search?q="@
    } else if engine == "bing"@ {
        "https://www.bing.com/search?q="@
    } else {
        "https://html.duckduckgo.com/html/?q="@
    }
}

/// A query that reads as an address: no space, and a dot, a colon, a slash,
/// or the word `localhost`.
pub open spec fn looks_like_address(q: Seq<char>) -> bool {
    !q.contains(' ') && (q.contains('.') || q.contains(':') || q.contains('/') || eq_ignore_case(
        q,
        "localhost"@,
    ))
}

/// An address on this machine, opened over plain `http`.
pub open spec fn is_local_address(q: Seq<char>) -> bool {
    eq_ignore_case(q, "localhost"@) || is_prefix(lower("localhost:"@), lower(q)) || is_prefix(
        lower("127.0.0.1"@),
        lower(q),
    ) || is_prefix(lower("[::1]"@), lower(q))
}

/// Whether a query already names its scheme, `http://` or `https://`, in any case.
pub open spec fn has_web_scheme(q: Seq<char>) -> bool {
    is_prefix(lower("http://"@), lower(q)) || is_prefix(lower("https://"@), lower(q))
}

/// The address opened for a query typed with `engine` selected.
pub open spec fn resolved(q: Seq<char>, engine: Seq<char>) -> Seq<char> {
    let t = trim(q);
    if t.len() == 0 {
        engine_home(engine)
    } else if has_web_scheme(t) {
        t
    } else if looks_like_address(t) {
        if is_local_address(t) {
            "http://"@ + t
        } else {
            "https://"@ + t
        }
    } else {
        engine_search(engine) + form_urlencoded(encode_utf8(t))
    }
}

/// Whether `s`, in ASCII lowercase, starts with `prefix` in ASCII lowercase.
fn starts_with_ignore_case(s: &Vec<char>, prefix: &str) -> (r: bool)
    ensures
        r == is_prefix(lower(prefix@), lower(s@)),
{
    let p = lower_vec(&chars_of(prefix));
    let l = lower_vec(s);
    has_prefix(&l, &p)
}

/// The address to open for what was typed in the address bar: the selected
/// engine's start page for an empty query; the query itself when it names
/// `http://` or `https://`; the query as an address when it looks like one
/// (`http` for this machine, `https` otherwise); else a search with the engine.
pub fn resolve_query(q: &str, engine: &str) -> (r: String)
    ensures
        r@ == resolved(q@, engine@),
        trim(q@).contains(' ') && !is_prefix(lower("http://"@), lower(trim(q@))) && !is_prefix(
            lower("https://"@),
            lower(trim(q@)),
        ) ==> r@ == search_with(engine@, trim(q@)),
{
    proof {
        lemma_what_is_opened(q@, engine@);
    }
    let t = trim_str(q);
    let google = str_eq(engine, "google");
    let bing = str_eq(engine, "bing");
    if t.unicode_len() == 0 {
        if google {
            return String::from_str("https://www.google.com/");
        } else if bing {
            return String::from_str("https://www.bing.com/");
        } else {
            return String::from_str("https://html.duckduckgo.com/html/");
        }
    }
    let chars = chars_of(t);
    if starts_with_ignore_case(&chars, "http://") || starts_with_ignore_case(&chars, "https://") {
        return String::from_str(t);
    }
    let localhost = lower_vec(&chars_of("localhost"));
    let is_localhost = seq_eq(&lower_vec(&chars), &localhost);
    let looks_like_address = !contains_char(&chars, ' ') && (contains_char(&chars, '.')
        || contains_char(&chars, ':') || contains_char(&chars, '/') || is_localhost);
    if looks_like_address {
        let local = is_localhost || starts_with_ignore_case(&chars, "localhost:")
            || starts_with_ignore_case(&chars, "127.0.0.1") || starts_with_ignore_case(
            &chars,
            "[::1]",
        );
        if local {
            return String::from_str("http://").concat(t);
        } else {
            return String::from_str("https://").concat(t);
        }
    }
    let encoded = form_urlencode(t);
    let prefix = if google {
        String::from_str("https://www.google.com/search?q=")
    } else if bing {
        String::from_str("https://www.bing.com/search?q=")
    } else {
        String::from_str("https://html.duckduckgo.com/html/?q=")
    };
    prefix.concat(encoded.as_str())
}

/// A scheme prefix of `p` stays one of `p + rest`.
proof fn lemma_scheme_prefix_kept(w: Seq<char>, p: Seq<char>, rest: Seq<char>)
    requires
        is_prefix(lower(w), lower(p)),
    ensures
        is_prefix(lower(w), lower(p + rest)),
{
    lemma_lower_concat(p, rest);
    assert((lower(p) + lower(rest)).subrange(0, lower(w).len() as int) =~= lower(p).subrange(
        0,
        lower(w).len() as int,
    ));
}

proof fn lemma_literal_prefix(w: Seq<char>, p: Seq<char>)
    requires
        w.len() <= p.len(),
        p.subrange(0, w.len() as int) == w,
    ensures
        is_prefix(lower(w), lower(p)),
{
    assert(lower(p).subrange(0, lower(w).len() as int) =~= lower(w));
}

/// Whatever is typed, the address bar opens a web address: the result starts
/// with `http://` or `https://`, in some case.
pub proof fn lemma_resolved_is_web_address(q: Seq<char>, engine: Seq<char>)
    ensures
        has_web_scheme(resolved(q, engine)),
{
    reveal_strlit("http://");
    reveal_strlit("https://");
    reveal_strlit("https://www.google.com/");
    reveal_strlit("https://www.bing.com/");
    reveal_strlit("https://html.duckduckgo.com/html/");
    reveal_strlit("https://www.google.com/search?q=");
    reveal_strlit("https://www.bing.com/search?q=");
    reveal_strlit("https://html.duckduckgo.com/html/?q=");
    let t = trim(q);
    let https = "https://"@;
    let http = "http://"@;
    if t.len() == 0 {
        let home = engine_home(engine);
        assert(home.subrange(0, https.len() as int) =~= https);
        lemma_literal_prefix(https, home);
    } else if has_web_scheme(t) {
    } else if looks_like_address(t) {
        if is_local_address(t) {
            assert(http.subrange(0, http.len() as int) =~= http);
            lemma_literal_prefix(http, http);
            lemma_scheme_prefix_kept(http, http, t);
        } else {
            assert(https.subrange(0, https.len() as int) =~= https);
            lemma_literal_prefix(https, https);
            lemma_scheme_prefix_kept(https, https, t);
        }
    } else {
        let search = engine_search(engine);
        assert(search.subrange(0, https.len() as int) =~= https);
        lemma_literal_prefix(https, search);
        lemma_scheme_prefix_kept(https, search, form_urlencoded(encode_utf8(t)));
    }
}

/// Spaces around what is typed do not change what is opened.
pub proof fn lemma_surrounding_space_ignored(q: Seq<char>, engine: Seq<char>)
    ensures
        resolved(trim(q), engine) == resolved(q, engine),
{
    lemma_trim_idempotent(q);
}

/// No byte is serialized to white space.
proof fn lemma_form_urlencoded_no_space(bytes: Seq<u8>)
    ensures
        form_urlencoded(bytes).len() > 0 ==> !is_white_space(form_urlencoded(bytes).last()),
    decreases bytes.len(),
{
    if bytes.len() > 0 {
        let b = bytes.last();
        let piece = form_urlencode_byte(b);
        assert((form_urlencoded(bytes.drop_last()) + piece).last() == piece.last());
        if !serialized_unchanged(b) && b != 0x20 {
            let lo = (b % 16) as int;
            assert(piece.last() == hex_digit(lo));
        }
    }
}

/// What the address bar opens is trimmed, and opening it again, with any
/// engine, opens the same address.
pub proof fn lemma_resolved_is_fixed_point(q: Seq<char>, engine: Seq<char>, other: Seq<char>)
    ensures
        trim(resolved(q, engine)) == resolved(q, engine),
        resolved(resolved(q, engine), other) == resolved(q, engine),
{
    reveal_strlit("http://");
    reveal_strlit("https://");
    reveal_strlit("https://www.google.com/");
    reveal_strlit("https://www.bing.com/");
    reveal_strlit("https://html.duckduckgo.com/html/");
    reveal_strlit("https://www.google.com/search?q=");
    reveal_strlit("https://www.bing.com/search?q=");
    reveal_strlit("https://html.duckduckgo.com/html/?q=");
    let t = trim(q);
    let r = resolved(q, engine);
    lemma_trim_start_shape(q);
    lemma_trim_end_shape(trim_start(q));
    if t.len() == 0 {
        assert(r.len() > 0 && r[0] == 'h' && r.last() == '/');
    } else if has_web_scheme(t) {
        assert(r == t);
    } else if looks_like_address(t) {
        let p = if is_local_address(t) {
            "http://"@
        } else {
            "https://"@
        };
        assert(r == p + t);
        assert((p + t)[0] == 'h');
        assert((p + t).last() == t.last());
    } else {
        let search = engine_search(engine);
        let enc = form_urlencoded(encode_utf8(t));
        lemma_form_urlencoded_no_space(encode_utf8(t));
        assert(r == search + enc);
        assert((search + enc)[0] == 'h');
        if enc.len() > 0 {
            assert((search + enc).last() == enc.last());
        } else {
            assert(search + enc == search);
            assert(search.last() == '=');
        }
    }
    lemma_trim_of_trimmed(r);
    lemma_resolved_is_web_address(q, engine);
    assert(r.len() > 0);
}
/// The search address of a query with each engine: Google and Bing by name,
/// DuckDuckGo for any other.
pub open spec fn search_with(engine: Seq<char>, t: Seq<char>) -> Seq<char> {
    if engine == "google"@ {
        "https://www.google.com/search?q="@ + form_urlencoded(encode_utf8(t))
    } else if engine == "bing"@ {
        "https://www.bing.com/search?q="@ + form_urlencoded(encode_utf8(t))
    } else {
        "https://html.duckduckgo.com/html/?q="@ + form_urlencoded(encode_utf8(t))
    }
}

/// What the address bar opens, case by case, for the trimmed query `t`:
/// - nothing typed: the engine's start page;
/// - `http://` or `https://` in front, in any case: `t` itself;
/// - a space in it: a search with the engine, never an address;
/// - no space, and a dot, colon or slash: `t` as an address, over `http` for
///   `localhost:`, `127.0.0.1` and `[::1]`, over `https` otherwise;
/// - no space, no dot, colon or slash, and not `localhost`: a search.
pub proof fn lemma_what_is_opened(q: Seq<char>, engine: Seq<char>)
    ensures
        ({
            let t = trim(q);
            let r = resolved(q, engine);
            let scheme = is_prefix(lower("http://"@), lower(t)) || is_prefix(
                lower("https://"@),
                lower(t),
            );
            let local = lower(t) == lower("localhost"@) || is_prefix(
                lower("localhost:"@),
                lower(t),
            ) || is_prefix(lower("127.0.0.1"@), lower(t)) || is_prefix(lower("[::1]"@), lower(t));
            &&& t.len() == 0 ==> r == (if engine == "google"@ {
                "https://www.google.com/"@
            } else if engine == "bing"@ {
                "https://www.bing.com/"@
            } else {
                "https://html.duckduckgo.com/html/"@
            })
            &&& t.len() > 0 && scheme ==> r == t
            &&& t.contains(' ') && !scheme ==> r == search_with(engine, t)
            &&& t.len() > 0 && !scheme && !t.contains(' ') && (t.contains('.') || t.contains(':')
                || t.contains('/')) ==> r == (if local {
                "http://"@
            } else {
                "https://"@
            }) + t
            &&& t.len() > 0 && !scheme && !t.contains('.') && !t.contains(':') && !t.contains('/')
                && lower(t) != lower("localhost"@) ==> r == search_with(engine, t)
        }),
{
}

} // verus!
