//! OAuth with PKCE for MCP servers: the unpadded URL-safe Base64 of the code
//! challenge, the authorization URL, and the checks on the browser's
//! callback to the loopback listener.
use vstd::prelude::*;
use vstd::string::StringSliceAdditionalSpecFns;
use crate::text::{chars_of, is_space, push_char, push_str, str_eq};

verus! {

/// The character of a six-bit value in the URL-safe Base64 alphabet
/// `A–Z a–z 0–9 - _`.
pub open spec fn b64_char(v: u8) -> char {
    if v < 26 {
        (65 + v) as char
    } else if v < 52 {
        (71 + v) as char
    } else if v < 62 {
        (v - 4) as char
    } else if v == 62 {
        '-'
    } else {
        '_'
    }
}

/// Unpadded URL-safe Base64: each group of three bytes becomes four
/// characters; a final group of one or two bytes becomes two or three.
pub open spec fn b64(bytes: Seq<u8>) -> Seq<char>
    decreases bytes.len(),
{
    if bytes.len() == 0 {
        Seq::empty()
    } else if bytes.len() == 1 {
        let b0 = bytes[0];
        seq![b64_char(b0 >> 2u8), b64_char((b0 & 3u8) << 4u8)]
    } else if bytes.len() == 2 {
        let b0 = bytes[0];
        let b1 = bytes[1];
        seq![
            b64_char(b0 >> 2u8),
            b64_char(((b0 & 3u8) << 4u8) | (b1 >> 4u8)),
            b64_char((b1 & 15u8) << 2u8),
        ]
    } else {
        let b0 = bytes[0];
        let b1 = bytes[1];
        let b2 = bytes[2];
        seq![
            b64_char(b0 >> 2u8),
            b64_char(((b0 & 3u8) << 4u8) | (b1 >> 4u8)),
            b64_char(((b1 & 15u8) << 2u8) | (b2 >> 6u8)),
            b64_char(b2 & 63u8),
        ] + b64(bytes.subrange(3, bytes.len() as int))
    }
}

/// The URL-safe Base64 alphabet.
pub open spec fn is_b64_char(c: char) -> bool {
    ('A' <= c && c <= 'Z') || ('a' <= c && c <= 'z') || ('0' <= c && c <= '9') || c == '-' || c
        == '_'
}

/// The character of a six-bit value.
fn b64_char_exec(v: u8) -> (c: char)
    requires
        v < 64,
    ensures
        c == b64_char(v),
        is_b64_char(c),
{
    if v < 26 {
        (65u8 + v) as char
    } else if v < 52 {
        (71u8 + v) as char
    } else if v < 62 {
        (v - 4) as char
    } else if v == 62 {
        '-'
    } else {
        '_'
    }
}

/// Encodes bytes as unpadded URL-safe Base64.
pub fn base64_url(bytes: &[u8]) -> (r: String)
    ensures
        r@ == b64(bytes@),
{
    let mut encoded = String::new();
    let mut i: usize = 0;
    assert(bytes@.subrange(0, bytes@.len() as int) =~= bytes@);
    assert(encoded@ + b64(bytes@) =~= b64(bytes@));
    while i < bytes.len()
        invariant
            i <= bytes@.len(),
            b64(bytes@) == encoded@ + b64(bytes@.subrange(i as int, bytes@.len() as int)),
        decreases bytes@.len() - i,
    {
        let ghost before = encoded@;
        let ghost tail = bytes@.subrange(i as int, bytes@.len() as int);
        let left = bytes.len() - i;
        let first = bytes[i];
        let second: u8 = if left > 1 { bytes[i + 1] } else { 0 };
        let third: u8 = if left > 2 { bytes[i + 2] } else { 0 };
        assert(first >> 2u8 < 64) by (bit_vector);
        assert(((first & 3u8) << 4u8) | (second >> 4u8) < 64) by (bit_vector);
        assert(((second & 15u8) << 2u8) | (third >> 6u8) < 64) by (bit_vector);
        assert(third & 63u8 < 64) by (bit_vector);
        push_char(&mut encoded, b64_char_exec(first >> 2));
        push_char(&mut encoded, b64_char_exec(((first & 3) << 4) | (second >> 4)));
        if left > 1 {
            push_char(&mut encoded, b64_char_exec(((second & 15) << 2) | (third >> 6)));
        }
        if left > 2 {
            push_char(&mut encoded, b64_char_exec(third & 63));
        }
        proof {
            if left == 1 {
                assert(((first & 3u8) << 4u8) | (0u8 >> 4u8) == (first & 3u8) << 4u8) by (bit_vector);
                assert(tail.len() == 1 && tail[0] == first);
            } else if left == 2 {
                assert(((second & 15u8) << 2u8) | (0u8 >> 6u8) == (second & 15u8) << 2u8) by (bit_vector);
                assert(tail.len() == 2 && tail[0] == first && tail[1] == second);
            } else {
                assert(tail[0] == first && tail[1] == second && tail[2] == third);
                assert(tail.subrange(3, tail.len() as int) =~= bytes@.subrange(i + 3, bytes@.len() as int));
            }
        }
        i = if left > 3 { i + 3 } else { bytes.len() };
        proof {
            if left <= 3 {
                assert(bytes@.subrange(i as int, bytes@.len() as int) =~= Seq::<u8>::empty());
            }
            assert(b64(bytes@) == encoded@ + b64(bytes@.subrange(i as int, bytes@.len() as int)));
        }
    }
    proof {
        assert(bytes@.subrange(i as int, bytes@.len() as int) =~= Seq::<u8>::empty());
        assert(encoded@ + Seq::<char>::empty() =~= encoded@);
    }
    encoded
}

/// The length of unpadded Base64 of `n` bytes.
pub open spec fn b64_len(n: nat) -> nat {
    4 * (n / 3) + if n % 3 == 0 {
        0
    } else {
        n % 3 + 1
    }
}

/// Unpadded URL-safe Base64 has the expected length, and every character is
/// in the URL-safe alphabet, so no `+`, `/` or `=` ever needs escaping.
pub proof fn lemma_b64_shape(bytes: Seq<u8>)
    ensures
        b64(bytes).len() == b64_len(bytes.len()),
        forall|i: int| 0 <= i < b64(bytes).len() ==> is_b64_char(#[trigger] b64(bytes)[i]),
    decreases bytes.len(),
{
    if bytes.len() >= 3 {
        let rest = bytes.subrange(3, bytes.len() as int);
        lemma_b64_shape(rest);
        let b0 = bytes[0];
        let b1 = bytes[1];
        let b2 = bytes[2];
        assert(b0 >> 2u8 < 64) by (bit_vector);
        assert(((b0 & 3u8) << 4u8) | (b1 >> 4u8) < 64) by (bit_vector);
        assert(((b1 & 15u8) << 2u8) | (b2 >> 6u8) < 64) by (bit_vector);
        assert(b2 & 63u8 < 64) by (bit_vector);
        let head = seq![
            b64_char(b0 >> 2u8),
            b64_char(((b0 & 3u8) << 4u8) | (b1 >> 4u8)),
            b64_char(((b1 & 15u8) << 2u8) | (b2 >> 6u8)),
            b64_char(b2 & 63u8),
        ];
        assert(b64(bytes) == head + b64(rest));
        assert forall|i: int| 0 <= i < b64(bytes).len() implies is_b64_char(#[trigger] b64(bytes)[i]) by {
            if i >= 4 {
                assert(b64(bytes)[i] == b64(rest)[i - 4]);
            }
        }
        assert(rest.len() == bytes.len() - 3);
        assert((bytes.len() - 3) as nat / 3 == bytes.len() / 3 - 1);
    } else if bytes.len() == 2 {
        let b0 = bytes[0];
        let b1 = bytes[1];
        assert(b0 >> 2u8 < 64) by (bit_vector);
        assert(((b0 & 3u8) << 4u8) | (b1 >> 4u8) < 64) by (bit_vector);
        assert((b1 & 15u8) << 2u8 < 64) by (bit_vector);
    } else if bytes.len() == 1 {
        let b0 = bytes[0];
        assert(b0 >> 2u8 < 64) by (bit_vector);
        assert((b0 & 3u8) << 4u8 < 64) by (bit_vector);
    }
}

/// The SHA-256 digest of a byte sequence, as ring computes it.
pub uninterp spec fn sha256_digest(data: Seq<u8>) -> Seq<u8>;

/// Trusted: calls `ring::digest::digest(&SHA256, data)` and copies the
/// digest out. ring's documentation gives a 32-byte output for SHA-256;
/// what the digest is, is only named here. ring panics on inputs of 2⁶¹
/// bytes or more, which `requires` leaves out.
#[verifier::external_body]
fn sha256(data: &[u8]) -> (r: Vec<u8>)
    requires
        data@.len() < 0x2000_0000_0000_0000,
    ensures
        r@ == sha256_digest(data@),
        r@.len() == 32,
{
    ring::digest::digest(&ring::digest::SHA256, data).as_ref().to_vec()
}

/// The PKCE code challenge of a verifier: unpadded URL-safe Base64 of the
/// SHA-256 digest of its UTF-8 bytes (the `S256` method).
pub fn pkce_challenge(verifier: &str) -> (r: String)
    requires
        verifier.spec_bytes().len() < 0x2000_0000_0000_0000,
    ensures
        r@ == b64(sha256_digest(verifier.spec_bytes())),
        r@.len() == 43,
{
    let digest = sha256(verifier.as_bytes());
    proof {
        lemma_b64_shape(digest@);
    }
    base64_url(digest.as_slice())
}

/// A list of key/value pairs, by the characters of each.
pub open spec fn pairs_view(pairs: Seq<(String, String)>) -> Seq<(Seq<char>, Seq<char>)> {
    pairs.map_values(|p: (String, String)| (p.0@, p.1@))
}

/// The decoded query pairs of a URL as the `url` crate parses it, or `None`
/// when the text is not a URL.
pub uninterp spec fn parsed_query(url: Seq<char>) -> Option<Seq<(Seq<char>, Seq<char>)>>;

/// The message of the `url` crate's error for text that is not a URL.
pub uninterp spec fn url_error_text(url: Seq<char>) -> Seq<char>;

/// The URL with the pairs appended to its query, form-encoded, as the `url`
/// crate serializes it; `None` when the text is not a URL.
pub uninterp spec fn url_with_query(url: Seq<char>, pairs: Seq<(Seq<char>, Seq<char>)>) -> Option<
    Seq<char>,
>;

/// Trusted: calls `url::Url::parse` and collects `query_pairs()` (the
/// percent- and form-decoded pairs, in order). The pairs and the error text
/// are only named.
#[verifier::external_body]
fn query_pairs_of(url_text: &str) -> (r: Result<Vec<(String, String)>, String>)
    ensures
        match parsed_query(url_text@) {
            Some(pairs) => r matches Ok(found) && pairs_view(found@) == pairs,
            None => r matches Err(message) && message@ == url_error_text(url_text@),
        },
{
    match url::Url::parse(url_text) {
        Ok(url) => Ok(url.query_pairs().map(|(k, v)| (k.into_owned(), v.into_owned())).collect()),
        Err(error) => Err(error.to_string()),
    }
}

/// The length in bytes of the text the `url` crate serializes a URL to,
/// or `None` when the text is not a URL.
pub uninterp spec fn url_text_len(url: Seq<char>) -> Option<nat>;

/// Trusted: calls `url::Url::parse` and takes the length of
/// `as_str()`, the URL's serialization. The length is only named.
#[verifier::external_body]
fn url_length(url_text: &str) -> (r: Option<usize>)
    ensures
        match url_text_len(url_text@) {
            Some(n) => r matches Some(k) && k == n,
            None => r is None,
        },
{
    url::Url::parse(url_text).ok().map(|url| url.as_str().len())
}

/// The path of a URL as the `url` crate serializes it, or `None` when the
/// text is not a URL.
pub uninterp spec fn url_path_of(url: Seq<char>) -> Option<Seq<char>>;

/// Trusted: calls `url::Url::parse` and takes `path()`. The path and the
/// error text are only named.
#[verifier::external_body]
fn url_path(url_text: &str) -> (r: Result<String, String>)
    ensures
        match url_path_of(url_text@) {
            Some(path) => r matches Ok(found) && found@ == path,
            None => r matches Err(message) && message@ == url_error_text(url_text@),
        },
{
    match url::Url::parse(url_text) {
        Ok(url) => Ok(url.path().to_owned()),
        Err(error) => Err(error.to_string()),
    }
}

/// The URL with its path replaced by `path` and no query, as the `url`
/// crate serializes it, or `None` when the text is not a URL.
pub uninterp spec fn url_with_path(url: Seq<char>, path: Seq<char>) -> Option<Seq<char>>;

/// Whether replacing the URL's path keeps its serialization within the
/// 4 GiB the `url` crate can index: the whole serialization plus the new
/// path at three characters a byte, and a `/` the crate may put before it.
/// Text that is not a URL always fits.
pub open spec fn path_fits(url: Seq<char>, path: Seq<char>) -> bool {
    match url_text_len(url) {
        Some(n) => n + 3 * utf8_bytes(path) + 1 <= 0xffff_ffff,
        None => true,
    }
}

/// The number of bytes of a text in UTF-8.
pub open spec fn utf8_bytes(s: Seq<char>) -> nat {
    vstd::utf8::encode_utf8(s).len()
}

/// What appending the pairs adds to a query at most: each pair a separator,
/// its key, `=` and its value, every byte of key and value written as at
/// most three characters (`%XX`).
pub open spec fn query_bytes(pairs: Seq<(Seq<char>, Seq<char>)>) -> nat
    decreases pairs.len(),
{
    if pairs.len() == 0 {
        0
    } else {
        query_bytes(pairs.drop_last()) + 3 * utf8_bytes(pairs.last().0) + 3 * utf8_bytes(pairs.last().1) + 2
    }
}

/// Whether appending the pairs to the URL keeps its serialization within
/// the 4 GiB the `url` crate can index: the URL's serialization, a `?`,
/// and the pairs at their longest. Text that is not a URL always fits.
pub open spec fn query_fits(url: Seq<char>, pairs: Seq<(Seq<char>, Seq<char>)>) -> bool {
    match url_text_len(url) {
        Some(n) => n + 1 + query_bytes(pairs) <= 0xffff_ffff,
        None => true,
    }
}

/// Trusted: calls `url::Url::parse`, appends the pairs in order with
/// `query_pairs_mut().extend_pairs` (one `append_pair` each) and serializes
/// the URL. The result and the error text are only named.
///
/// `query_pairs_mut` records the query's start as a `u32`, and when the URL
/// has a fragment, putting it back records the fragment's start as a `u32`
/// with `unwrap`: both panic once the URL before its fragment, with the
/// pairs appended, passes 4 GiB. `requires` leaves those inputs out by
/// `query_fits`, which bounds that length by the whole serialization plus
/// the pairs at three characters a byte (form encoding writes each byte as
/// itself, `+` or `%XX`).
#[verifier::external_body]
fn append_query(url_text: &str, pairs: &[(String, String)]) -> (r: Result<String, String>)
    requires
        query_fits(url_text@, pairs_view(pairs@)),
    ensures
        match url_with_query(url_text@, pairs_view(pairs@)) {
            Some(text) => r matches Ok(found) && found@ == text,
            None => r matches Err(message) && message@ == url_error_text(url_text@),
        },
{
    let mut url = match url::Url::parse(url_text) {
        Ok(url) => url,
        Err(error) => return Err(error.to_string()),
    };
    url.query_pairs_mut().extend_pairs(pairs.iter().map(|(k, v)| (k.as_str(), v.as_str())));
    Ok(url.to_string())
}

/// Trusted: calls `url::Url::parse`, `set_path(path)`, `set_query(None)`
/// and serializes the URL. The result and the error text are only named.
///
/// `set_path` records where the path ends as a `u32` with `unwrap`, and
/// panics once the URL with its new path passes 4 GiB; `requires` leaves
/// those inputs out by `path_fits` (the path is written with each byte as
/// at most three characters, after a `/` where the URL needs one).
#[verifier::external_body]
fn replace_path(url_text: &str, path: &str) -> (r: Result<String, String>)
    requires
        path_fits(url_text@, path@),
    ensures
        match url_with_path(url_text@, path@) {
            Some(text) => r matches Ok(found) && found@ == text,
            None => r matches Err(message) && message@ == url_error_text(url_text@),
        },
{
    let mut url = match url::Url::parse(url_text) {
        Ok(url) => url,
        Err(error) => return Err(error.to_string()),
    };
    url.set_path(path);
    url.set_query(None);
    Ok(url.to_string())
}

/// The metadata URL under `/.well-known/` that a server publishes for `url`:
/// its path becomes `prefix`, followed by its own path when `keep_path`,
/// with no query. `None` when that URL would pass 4 GiB; an error when the
/// text is not a URL.
pub open spec fn metadata_result(url: Seq<char>, prefix: Seq<char>, keep_path: bool) -> Option<Result<Seq<char>, Seq<char>>> {
    match url_path_of(url) {
        None => Some(Err(url_error_text(url))),
        Some(p) => {
            let path = prefix + if keep_path { p } else { Seq::empty() };
            if !path_fits(url, path) {
                None
            } else {
                match url_with_path(url, path) {
                    Some(t) => Some(Ok(t)),
                    None => Some(Err(url_error_text(url))),
                }
            }
        },
    }
}

/// The metadata URL of `url` (see `metadata_result`).
pub fn metadata_url(url: &str, prefix: &str, keep_path: bool) -> (r: Option<Result<String, String>>)
    ensures
        match metadata_result(url@, prefix@, keep_path) {
            None => r is None,
            Some(x) => r matches Some(y) && result_view(y) == x,
        },
{
    let own = match url_path(url) {
        Ok(p) => p,
        Err(e) => return Some(Err(e)),
    };
    let mut path = prefix.to_owned();
    if keep_path {
        push_str(&mut path, own.as_str());
    }
    assert(path@ == prefix@ + if keep_path { own@ } else { Seq::<char>::empty() });
    match url_length(url) {
        Some(n) => {
            let bytes = path.as_str().as_bytes().len();
            if n as u64 > 0xffff_ffff || bytes as u64 > 0xffff_ffff || n as u64 + 3 * (bytes as u64) + 1 > 0xffff_ffff {
                return None;
            }
        },
        None => {},
    }
    Some(replace_path(url, path.as_str()))
}

/// A result, by the characters of its strings.
pub open spec fn result_view(r: Result<String, String>) -> Result<Seq<char>, Seq<char>> {
    match r {
        Ok(s) => Ok(s@),
        Err(e) => Err(e@),
    }
}

/// Words joined with single spaces.
pub open spec fn space_joined(words: Seq<Seq<char>>) -> Seq<char>
    decreases words.len(),
{
    if words.len() == 0 {
        Seq::empty()
    } else if words.len() == 1 {
        words[0]
    } else {
        space_joined(words.drop_last()) + seq![' '] + words.last()
    }
}

/// The query of an authorization request with PKCE.
pub open spec fn authorization_pairs(
    client_id: Seq<char>,
    redirect_uri: Seq<char>,
    challenge: Seq<char>,
    state: Seq<char>,
    resource: Seq<char>,
    scope: Seq<char>,
) -> Seq<(Seq<char>, Seq<char>)> {
    seq![
        ("response_type"@, "code"@),
        ("client_id"@, client_id),
        ("redirect_uri"@, redirect_uri),
        ("code_challenge"@, challenge),
        ("code_challenge_method"@, "S256"@),
        ("state"@, state),
        ("resource"@, resource),
        ("scope"@, scope),
    ]
}

/// Joins words with single spaces.
pub fn join_words(words: &[&str]) -> (r: String)
    ensures
        r@ == space_joined(words@.map_values(|w: &str| w@)),
{
    let ghost view = words@.map_values(|w: &str| w@);
    let mut r = String::new();
    let mut i: usize = 0;
    while i < words.len()
        invariant
            i <= words@.len(),
            view == words@.map_values(|w: &str| w@),
            r@ == space_joined(view.subrange(0, i as int)),
        decreases words@.len() - i,
    {
        if i > 0 {
            push_char(&mut r, ' ');
        }
        push_str(&mut r, words[i]);
        proof {
            let next = view.subrange(0, i + 1);
            assert(next.drop_last() =~= view.subrange(0, i as int));
            if i == 0 {
                assert(r@ =~= next[0]);
            }
        }
        i = i + 1;
    }
    assert(view.subrange(0, words@.len() as int) =~= view);
    r
}

/// The scope of an authorization request: the scopes joined by spaces.
pub open spec fn scope_of(scopes: Seq<&str>) -> Seq<char> {
    space_joined(scopes.map_values(|w: &str| w@))
}

/// What the authorization URL is: the endpoint with the pairs in its query,
/// or why there is none.
pub open spec fn authorization_result(endpoint: Seq<char>, pairs: Seq<(Seq<char>, Seq<char>)>) -> Result<Seq<char>, Seq<char>> {
    match url_with_query(endpoint, pairs) {
        Some(text) => Ok(text),
        None => Err("invalid OAuth authorization URL: "@ + url_error_text(endpoint)),
    }
}

fn authorization_query(
    client_id: &str,
    redirect_uri: &str,
    challenge: &str,
    state: &str,
    resource: &str,
    scopes: &[&str],
) -> (r: Vec<(String, String)>)
    ensures
        pairs_view(r@) == authorization_pairs(client_id@, redirect_uri@, challenge@, state@, resource@, scope_of(scopes@)),
{
    let scope = join_words(scopes);
    let mut pairs: Vec<(String, String)> = Vec::new();
    pairs.push(("response_type".to_owned(), "code".to_owned()));
    pairs.push(("client_id".to_owned(), client_id.to_owned()));
    pairs.push(("redirect_uri".to_owned(), redirect_uri.to_owned()));
    pairs.push(("code_challenge".to_owned(), challenge.to_owned()));
    pairs.push(("code_challenge_method".to_owned(), "S256".to_owned()));
    pairs.push(("state".to_owned(), state.to_owned()));
    pairs.push(("resource".to_owned(), resource.to_owned()));
    pairs.push(("scope".to_owned(), scope));
    proof {
        assert(pairs_view(pairs@) =~= authorization_pairs(
            client_id@,
            redirect_uri@,
            challenge@,
            state@,
            resource@,
            scope_of(scopes@),
        ));
    }
    pairs
}

/// The authorization URL the browser is sent to: the server's authorization
/// endpoint with the PKCE request in its query. The URL must stay within
/// 4 GiB (`query_fits`); `authorization_url_checked` tests that first.
pub fn authorization_url(
    endpoint: &str,
    client_id: &str,
    redirect_uri: &str,
    challenge: &str,
    state: &str,
    resource: &str,
    scopes: &[&str],
) -> (r: Result<String, String>)
    requires
        query_fits(
            endpoint@,
            authorization_pairs(client_id@, redirect_uri@, challenge@, state@, resource@, scope_of(scopes@)),
        ),
    ensures
        result_view(r) == authorization_result(
            endpoint@,
            authorization_pairs(client_id@, redirect_uri@, challenge@, state@, resource@, scope_of(scopes@)),
        ),
{
    let pairs = authorization_query(client_id, redirect_uri, challenge, state, resource, scopes);
    match append_query(endpoint, pairs.as_slice()) {
        Ok(text) => Ok(text),
        Err(error) => {
            let mut message = "invalid OAuth authorization URL: ".to_owned();
            push_str(&mut message, error.as_str());
            Err(message)
        },
    }
}

/// Appending more pairs never makes the query shorter.
proof fn lemma_query_bytes_prefix(pairs: Seq<(Seq<char>, Seq<char>)>, i: int)
    requires
        0 <= i <= pairs.len(),
    ensures
        query_bytes(pairs.subrange(0, i)) <= query_bytes(pairs),
    decreases pairs.len() - i,
{
    if i < pairs.len() {
        lemma_query_bytes_prefix(pairs, i + 1);
        assert(pairs.subrange(0, i + 1).drop_last() =~= pairs.subrange(0, i));
    } else {
        assert(pairs.subrange(0, i) =~= pairs);
    }
}

/// Whether the pairs fit after a serialization of `n` bytes, computed.
fn fits_after(n: usize, pairs: &Vec<(String, String)>) -> (r: bool)
    ensures
        r == (n + 1 + query_bytes(pairs_view(pairs@)) <= 0xffff_ffff),
{
    let ghost view = pairs_view(pairs@);
    if n >= 0xffff_ffff {
        proof {
            lemma_query_bytes_prefix(view, 0);
        }
        return false;
    }
    let mut total: u64 = n as u64 + 1;
    let mut i: usize = 0;
    assert(view.subrange(0, 0) =~= Seq::<(Seq<char>, Seq<char>)>::empty());
    while i < pairs.len()
        invariant
            i <= pairs@.len(),
            view == pairs_view(pairs@),
            total == n + 1 + query_bytes(view.subrange(0, i as int)),
            total <= 0xffff_ffff,
        decreases pairs@.len() - i,
    {
        let (k, v) = &pairs[i];
        let ks = k.as_str();
        let vs = v.as_str();
        let kb = ks.as_bytes().len() as u64;
        let vb = vs.as_bytes().len() as u64;
        proof {
            assert(view.subrange(0, i + 1).drop_last() =~= view.subrange(0, i as int));
            assert(view[i as int] == (k@, v@));
            assert(view.subrange(0, i + 1).last() == (k@, v@));
            assert(kb == utf8_bytes(k@));
            assert(vb == utf8_bytes(v@));
        }
        if kb > 0xffff_ffff || vb > 0xffff_ffff || total + 3 * kb + 3 * vb + 2 > 0xffff_ffff {
            proof {
                lemma_query_bytes_prefix(view, i + 1);
            }
            return false;
        }
        total = total + 3 * kb + 3 * vb + 2;
        i = i + 1;
    }
    assert(view.subrange(0, pairs@.len() as int) =~= view);
    true
}

/// The authorization URL, when it stays within the 4 GiB the `url` crate
/// can hold; `None` when it would not, where `authorization_url` is not
/// called.
pub fn authorization_url_checked(
    endpoint: &str,
    client_id: &str,
    redirect_uri: &str,
    challenge: &str,
    state: &str,
    resource: &str,
    scopes: &[&str],
) -> (r: Option<Result<String, String>>)
    ensures
        ({
            let pairs = authorization_pairs(client_id@, redirect_uri@, challenge@, state@, resource@, scope_of(scopes@));
            &&& query_fits(endpoint@, pairs) <==> r is Some
            &&& r matches Some(x) ==> result_view(x) == authorization_result(endpoint@, pairs)
        }),
{
    let pairs = authorization_query(client_id, redirect_uri, challenge, state, resource, scopes);
    match url_length(endpoint) {
        Some(n) => {
            if !fits_after(n, &pairs) {
                return None;
            }
        },
        None => {},
    }
    Some(authorization_url(endpoint, client_id, redirect_uri, challenge, state, resource, scopes))
}

/// The value of the last pair with the given key.
pub open spec fn last_value(pairs: Seq<(Seq<char>, Seq<char>)>, key: Seq<char>) -> Option<Seq<char>>
    decreases pairs.len(),
{
    if pairs.len() == 0 {
        None
    } else if pairs.last().0 == key {
        Some(pairs.last().1)
    } else {
        last_value(pairs.drop_last(), key)
    }
}

/// What a callback with these query pairs yields: the authorization code when
/// the state matches and no error is reported, otherwise the reason.
pub open spec fn callback_result(pairs: Seq<(Seq<char>, Seq<char>)>, expected: Seq<char>) -> Result<
    Seq<char>,
    Seq<char>,
> {
    match last_value(pairs, "state"@) {
        None => Err("OAuth callback omitted state"@),
        Some(state) => if state != expected {
            Err("OAuth callback state did not match"@)
        } else {
            match last_value(pairs, "error"@) {
                Some(error) => Err(
                    match last_value(pairs, "error_description"@) {
                        Some(description) => description,
                        None => error,
                    },
                ),
                None => match last_value(pairs, "code"@) {
                    None => Err("OAuth callback omitted authorization code"@),
                    Some(code) => Ok(code),
                },
            }
        },
    }
}

/// A callback gives a code only when it carries the expected state and no
/// error, and the code it gives is the one it carries.
pub proof fn lemma_callback_needs_matching_state(pairs: Seq<(Seq<char>, Seq<char>)>, expected: Seq<char>)
    ensures
        callback_result(pairs, expected) matches Ok(code) ==> {
            &&& last_value(pairs, "state"@) == Some(expected)
            &&& last_value(pairs, "error"@) is None
            &&& last_value(pairs, "code"@) == Some(code)
        },
{
}

/// The value of the last pair with the given key.
fn last_value_exec(pairs: &[(String, String)], key: &str) -> (r: Option<String>)
    ensures
        match last_value(pairs_view(pairs@), key@) {
            Some(v) => r matches Some(found) && found@ == v,
            None => r is None,
        },
{
    let mut found: Option<String> = None;
    let mut i: usize = 0;
    while i < pairs.len()
        invariant
            i <= pairs@.len(),
            match last_value(pairs_view(pairs@.subrange(0, i as int)), key@) {
                Some(v) => found matches Some(f) && f@ == v,
                None => found is None,
            },
        decreases pairs@.len() - i,
    {
        proof {
            let next = pairs_view(pairs@.subrange(0, i + 1));
            assert(next.drop_last() =~= pairs_view(pairs@.subrange(0, i as int)));
            assert(next.last() == (pairs@[i as int].0@, pairs@[i as int].1@));
        }
        if str_eq(pairs[i].0.as_str(), key) {
            found = Some(pairs[i].1.clone());
        }
        i = i + 1;
    }
    assert(pairs@.subrange(0, pairs@.len() as int) =~= pairs@);
    found
}

/// The browser's redirect back to the loopback listener.
pub struct McpCallback;

impl McpCallback {
    /// The authorization code in a callback request target (such as
    /// `/callback?code=…&state=…`), checked against the expected state.
    pub fn code(target: &str, expected_state: &str) -> (r: Result<String, String>)
        ensures
            result_view(r) == match parsed_query("http://127.0.0.1"@ + target@) {
                None => Err("invalid OAuth callback: "@ + url_error_text("http://127.0.0.1"@ + target@)),
                Some(pairs) => callback_result(pairs, expected_state@),
            },
    {
        let mut url = "http://127.0.0.1".to_owned();
        push_str(&mut url, target);
        let pairs = match query_pairs_of(url.as_str()) {
            Ok(pairs) => pairs,
            Err(error) => {
                let mut message = "invalid OAuth callback: ".to_owned();
                push_str(&mut message, error.as_str());
                return Err(message);
            },
        };
        let state = match last_value_exec(pairs.as_slice(), "state") {
            Some(state) => state,
            None => return Err("OAuth callback omitted state".to_owned()),
        };
        if !str_eq(state.as_str(), expected_state) {
            return Err("OAuth callback state did not match".to_owned());
        }
        if let Some(error) = last_value_exec(pairs.as_slice(), "error") {
            return Err(
                match last_value_exec(pairs.as_slice(), "error_description") {
                    Some(description) => description,
                    None => error,
                },
            );
        }
        match last_value_exec(pairs.as_slice(), "code") {
            Some(code) => Ok(code),
            None => Err("OAuth callback omitted authorization code".to_owned()),
        }
    }
}

/// The first line of a text as `str::lines` gives it: up to the first line
/// feed, without a carriage return right before it; the whole text when it
/// has no line feed; none for empty text.
pub open spec fn first_line(s: Seq<char>) -> Option<Seq<char>> {
    if s.len() == 0 {
        None
    } else if exists|k: int| 0 <= k < s.len() && s[k] == '\n' {
        let k = choose|k: int| 0 <= k < s.len() && s[k] == '\n' && forall|j: int| 0 <= j < k ==> s[j] != '\n';
        if k > 0 && s[k - 1] == '\r' {
            Some(s.subrange(0, k - 1))
        } else {
            Some(s.subrange(0, k))
        }
    } else {
        Some(s)
    }
}

/// The words of `s` after the word `cur` begun before it, split at white
/// space as `str::split_whitespace` does.
pub open spec fn words_after(s: Seq<char>, cur: Seq<char>) -> Seq<Seq<char>>
    decreases s.len(),
{
    let done = if cur.len() > 0 { seq![cur] } else { Seq::<Seq<char>>::empty() };
    if s.len() == 0 {
        done
    } else if is_space(s[0]) {
        done + words_after(s.drop_first(), Seq::empty())
    } else {
        words_after(s.drop_first(), cur.push(s[0]))
    }
}

/// The words of a text, split at white space.
pub open spec fn words(s: Seq<char>) -> Seq<Seq<char>> {
    words_after(s, Seq::empty())
}

/// The words of a text follow the words found before a point.
proof fn lemma_words_step(s: Seq<char>, i: int, found: Seq<Seq<char>>, cur: Seq<char>)
    requires
        0 <= i < s.len(),
        words(s) == found + words_after(s.subrange(i, s.len() as int), cur),
    ensures
        ({
            let c = s[i];
            let rest = s.subrange(i + 1, s.len() as int);
            if is_space(c) {
                let f2 = if cur.len() > 0 { found.push(cur) } else { found };
                words(s) == f2 + words_after(rest, Seq::empty())
            } else {
                words(s) == found + words_after(rest, cur.push(c))
            }
        }),
{
    let t = s.subrange(i, s.len() as int);
    assert(t.drop_first() =~= s.subrange(i + 1, s.len() as int));
    assert(t[0] == s[i]);
    if is_space(s[i]) {
        let done = if cur.len() > 0 { seq![cur] } else { Seq::<Seq<char>>::empty() };
        let f2 = if cur.len() > 0 { found.push(cur) } else { found };
        assert(found + (done + words_after(t.drop_first(), Seq::empty())) =~= f2 + words_after(t.drop_first(), Seq::empty()));
    }
}

/// The request target of an HTTP request: the second word of its first
/// line.
pub open spec fn request_target(request: Seq<char>) -> Option<Seq<char>> {
    match first_line(request) {
        None => None,
        Some(line) => if words(line).len() >= 2 {
            Some(words(line)[1])
        } else {
            None
        },
    }
}

/// The end of the first line (not counting a carriage return before the
/// line feed).
fn first_line_end(cs: &[char]) -> (r: usize)
    requires
        cs@.len() > 0,
    ensures
        r <= cs@.len(),
        first_line(cs@) == Some(cs@.subrange(0, r as int)),
{
    let mut k: usize = 0;
    while k < cs.len() && cs[k] != '\n'
        invariant
            k <= cs@.len(),
            forall|j: int| 0 <= j < k ==> cs@[j] != '\n',
        decreases cs@.len() - k,
    {
        k = k + 1;
    }
    let ghost s = cs@;
    if k == cs.len() {
        assert(!exists|m: int| 0 <= m < s.len() && s[m] == '\n');
        assert(s.subrange(0, k as int) =~= s);
        return k;
    }
    proof {
        let m = choose|m: int| 0 <= m < s.len() && s[m] == '\n' && forall|j: int| 0 <= j < m ==> s[j] != '\n';
        assert(0 <= k < s.len() && s[k as int] == '\n' && forall|j: int| 0 <= j < k ==> s[j] != '\n');
        if m < k {
            assert(s[m] != '\n');
        } else if m > k {
            assert(s[k as int] != '\n');
        }
    }
    if k > 0 && cs[k - 1] == '\r' {
        k - 1
    } else {
        k
    }
}

impl McpCallback {
    /// The request target of the callback request, or why there is none.
    pub fn target(request: &str) -> (r: Result<String, String>)
        ensures
            match request_target(request@) {
                Some(t) => r matches Ok(found) && found@ == t,
                None => r matches Err(m) && m@ == "invalid OAuth callback"@,
            },
    {
        let cs = chars_of(request);
        if cs.len() == 0 {
            return Err("invalid OAuth callback".to_owned());
        }
        let end = first_line_end(cs.as_slice());
        let ghost line = cs@.subrange(0, end as int);
        let mut found: Vec<Vec<char>> = Vec::new();
        let mut cur: Vec<char> = Vec::new();
        let mut i: usize = 0;
        assert(line.subrange(0, line.len() as int) =~= line);
        assert(Seq::<Seq<char>>::empty() + words_after(line, Seq::empty()) =~= words(line));
        while i < end && found.len() < 2
            invariant
                i <= end <= cs@.len(),
                line == cs@.subrange(0, end as int),
                words(line) == crate::text::views(found@) + words_after(line.subrange(i as int, line.len() as int), cur@),
                found@.len() <= 2,
            decreases end - i,
        {
            let c = cs[i];
            proof {
                assert(line[i as int] == c);
                lemma_words_step(line, i as int, crate::text::views(found@), cur@);
            }
            if crate::text::is_space_exec(c) {
                if cur.len() > 0 {
                    let ghost before = found@;
                    let ghost word = cur@;
                    found.push(cur);
                    assert(crate::text::views(found@) =~= crate::text::views(before).push(word));
                    cur = Vec::new();
                } else {
                    cur = Vec::new();
                }
            } else {
                cur.push(c);
            }
            i = i + 1;
        }
        if found.len() < 2 {
            proof {
                assert(line.subrange(i as int, line.len() as int) =~= Seq::<char>::empty());
            }
            if cur.len() > 0 && found.len() == 1 {
                proof {
                    assert(words(line) =~= crate::text::views(found@).push(cur@));
                }
                return Ok(crate::text::string_of(cur.as_slice()));
            }
            proof {
                assert(words(line).len() < 2);
            }
            return Err("invalid OAuth callback".to_owned());
        }
        proof {
            lemma_words_after_prefix(crate::text::views(found@), line.subrange(i as int, line.len() as int), cur@);
        }
        Ok(crate::text::string_of(found[1].as_slice()))
    }

    /// The answer sent to the browser: no content when the callback gave a
    /// code, a bad request otherwise.
    pub fn response(accepted: bool) -> (r: &'static str)
        ensures
            r@ == if accepted {
                "HTTP/1.1 204 No Content\r\nConnection: close\r\n\r\n"@
            } else {
                "HTTP/1.1 400 Bad Request\r\nConnection: close\r\n\r\n"@
            },
    {
        if accepted {
            "HTTP/1.1 204 No Content\r\nConnection: close\r\n\r\n"
        } else {
            "HTTP/1.1 400 Bad Request\r\nConnection: close\r\n\r\n"
        }
    }
}

/// The words found so far stay the first words.
proof fn lemma_words_after_prefix(found: Seq<Seq<char>>, s: Seq<char>, cur: Seq<char>)
    ensures
        (found + words_after(s, cur)).len() >= found.len(),
        forall|j: int| 0 <= j < found.len() ==> #[trigger] (found + words_after(s, cur))[j] == found[j],
{
}

} // verus!
