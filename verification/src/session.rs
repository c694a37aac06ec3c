//! Sessions to hand over to an HTTP client, and cookies.

use vstd::prelude::*;

use crate::text::{
    chars_of, concat3, ends_with, find, join, joined, lemma_find_from_advance, lemma_join_all,
    lemma_split_join, lemma_spread_all, occurs_at, same, slice, split, spread, spread_from,
    string_views,
};
use crate::textmap::TextMap;

verus! {

/// A browser cookie.
#[derive(Debug)]
pub struct SessionCookie {
    /// The name.
    pub name: String,
    /// The value.
    pub value: String,
    /// The domain that it applies to.
    pub domain: String,
    /// The path that it applies to.
    pub path: String,
    /// Whether it is sent over HTTPS only.
    pub secure: bool,
    /// Whether scripts cannot see it.
    pub http_only: bool,
    /// The policy for requests from other sites.
    pub same_site: Option<String>,
    /// When it expires, in seconds since 1970, as the bits of a double. A session
    /// cookie has none.
    pub expires: Option<u64>,
}

/// A browser session, exported.
#[derive(Debug)]
pub struct BrowserSession {
    /// The cookies.
    pub cookies: Vec<SessionCookie>,
    /// The user agent.
    pub user_agent: String,
    /// The current URL.
    pub url: String,
    /// Further headers.
    pub extra_headers: TextMap,
}

/// What it takes to restore a browser in which somebody was logged in.
#[derive(Debug)]
pub struct BrowserState {
    /// The cookies, those hidden from scripts as well.
    pub cookies: Vec<SessionCookie>,
    /// The storage of the URL's origin.
    pub local_storage: TextMap,
    /// The storage of the tab.
    pub session_storage: TextMap,
    /// The user agent.
    pub user_agent: String,
    /// The URL whose origin owns the storage.
    pub url: String,
}

/// The upper-case hexadecimal digit for `d`.
pub open spec fn hex_digit(d: int) -> char {
    if d < 10 {
        (48 + d) as char
    } else {
        (55 + d) as char
    }
}

/// A byte as it stands in a cookie header: as it is, or percent-encoded.
pub open spec fn coded(b: u8, plain: bool) -> Seq<char> {
    if plain {
        seq![b as char]
    } else {
        seq!['%', hex_digit(b as int / 16), hex_digit(b as int % 16)]
    }
}

fn hex(d: u8) -> (c: char)
    requires
        d < 16,
    ensures
        c == hex_digit(d as int),
{
    if d < 10 {
        (48 + d) as char
    } else {
        (55 + d) as char
    }
}

fn push_coded(out: &mut String, b: u8, plain: bool)
    ensures
        final(out)@ == old(out)@ + coded(b, plain),
{
    if plain {
        out.push(b as char);
        assert(out@ =~= old(out)@ + seq![b as char]);
    } else {
        let high = hex(b / 16);
        let low = hex(b % 16);
        out.push('%');
        out.push(high);
        out.push(low);
        assert(out@ =~= old(out)@ + seq!['%', high, low]);
    }
}

/// A byte that can stand in a cookie's value: RFC 6265 leaves out controls, blanks,
/// the double quote, the comma, the semicolon, the backslash and all beyond ASCII.
pub open spec fn is_cookie_octet(b: u8) -> bool {
    ||| b == 0x21
    ||| 0x23 <= b <= 0x2b
    ||| 0x2d <= b <= 0x3a
    ||| 0x3c <= b <= 0x5b
    ||| 0x5d <= b <= 0x7e
}

/// What stands in a cookie header for a byte of a value. The percent sign is
/// encoded too, so that the value can be told from its encoding.
pub open spec fn value_piece(b: u8) -> Seq<char> {
    coded(b, is_cookie_octet(b) && b != 37)
}

/// A cookie's value as it stands in a header.
pub open spec fn escaped_value(value: Seq<char>) -> Seq<char> {
    spread(vstd::utf8::encode_utf8(value), |b: u8| value_piece(b))
}

/// A cookie's value as it stands in a header.
pub fn escape_cookie_value(value: &str) -> (out: String)
    ensures
        out@ == escaped_value(value@),
{
    let bytes = value.as_bytes();
    let ghost all = vstd::utf8::encode_utf8(value@);
    let ghost f = |b: u8| value_piece(b);
    let mut out = String::new();
    let mut i: usize = 0;
    assert(out@ + spread_from(all, f, 0) =~= escaped_value(value@));
    while i < bytes.len()
        invariant
            i <= bytes@.len(),
            bytes@ == all,
            all == vstd::utf8::encode_utf8(value@),
            f == (|b: u8| value_piece(b)),
            out@ + spread_from(all, f, i as int) == escaped_value(value@),
        decreases bytes@.len() - i,
    {
        let ghost before = out@;
        let b = bytes[i];
        let octet = b == 0x21 || (b >= 0x23 && b <= 0x2b) || (b >= 0x2d && b <= 0x3a) || (b >= 0x3c
            && b <= 0x5b) || (b >= 0x5d && b <= 0x7e);
        push_coded(&mut out, b, octet && b != 37);
        assert(out@ + spread_from(all, f, i + 1) =~= before + spread_from(all, f, i as int));
        i = i + 1;
    }
    assert(out@ + spread_from(all, f, i as int) =~= out@);
    out
}

/// A byte that cannot stand in a cookie's name for its syntax.
pub open spec fn is_separator(b: u8) -> bool {
    ||| b == 40 || b == 41 || b == 60 || b == 62 || b == 64
    ||| b == 44 || b == 59 || b == 58 || b == 92 || b == 34
    ||| b == 47 || b == 91 || b == 93 || b == 63 || b == 61
    ||| b == 123 || b == 125
}

/// A byte that can stand in a cookie's name as it is.
pub open spec fn stays(b: u8) -> bool {
    0x20 < b < 0x7f && !is_separator(b)
}

/// What stands in a cookie header for a byte of a name.
pub open spec fn name_piece(b: u8) -> Seq<char> {
    coded(b, stays(b))
}

/// A cookie's name as it stands in a header.
pub open spec fn sanitized_name(name: Seq<char>) -> Seq<char> {
    spread(vstd::utf8::encode_utf8(name), |b: u8| name_piece(b))
}

/// A cookie's name as it stands in a header.
pub fn sanitize_cookie_name(name: &str) -> (out: String)
    ensures
        out@ == sanitized_name(name@),
{
    let bytes = name.as_bytes();
    let ghost all = vstd::utf8::encode_utf8(name@);
    let ghost f = |b: u8| name_piece(b);
    let mut out = String::new();
    let mut i: usize = 0;
    assert(out@ + spread_from(all, f, 0) =~= sanitized_name(name@));
    while i < bytes.len()
        invariant
            i <= bytes@.len(),
            bytes@ == all,
            all == vstd::utf8::encode_utf8(name@),
            f == (|b: u8| name_piece(b)),
            out@ + spread_from(all, f, i as int) == sanitized_name(name@),
        decreases bytes@.len() - i,
    {
        let ghost before = out@;
        let b = bytes[i];
        let separator = b == 40 || b == 41 || b == 60 || b == 62 || b == 64 || b == 44 || b == 59
            || b == 58 || b == 92 || b == 34 || b == 47 || b == 91 || b == 93 || b == 63 || b == 61
            || b == 123 || b == 125;
        push_coded(&mut out, b, b > 0x20 && b < 0x7f && !separator);
        assert(out@ + spread_from(all, f, i + 1) =~= before + spread_from(all, f, i as int));
        i = i + 1;
    }
    assert(out@ + spread_from(all, f, i as int) =~= out@);
    out
}

/// A cookie as it stands in a header.
pub open spec fn cookie_pair(cookie: SessionCookie) -> Seq<char> {
    sanitized_name(cookie.name@) + "="@ + escaped_value(cookie.value@)
}

/// Cookies as they stand in a header, one by one.
pub open spec fn cookie_pairs(cookies: Seq<SessionCookie>) -> Seq<Seq<char>> {
    cookies.map_values(|c: SessionCookie| cookie_pair(c))
}

/// A cookie with domain `cookie_domain` is for `domain`: with a leading dot, for
/// the rest and every name that ends in a dot and the rest; without, for itself.
pub open spec fn domain_matches(cookie_domain: Seq<char>, domain: Seq<char>) -> bool {
    if cookie_domain.len() > 0 && cookie_domain[0] == '.' {
        domain == cookie_domain.skip(1) || cookie_domain.is_suffix_of(domain)
    } else {
        domain == cookie_domain
    }
}

/// Whether a cookie with domain `cookie_domain` is for `domain`.
pub fn is_for_domain(cookie_domain: &str, domain: &str) -> (r: bool)
    ensures
        r == domain_matches(cookie_domain@, domain@),
{
    let chars = chars_of(cookie_domain);
    if chars.len() > 0 && chars[0] == '.' {
        let base = slice(&chars, 1, chars.len());
        assert(base@ =~= cookie_domain@.skip(1));
        same(domain, base.as_str()) || ends_with(domain, cookie_domain)
    } else {
        same(domain, cookie_domain)
    }
}

impl BrowserSession {
    /// A session with the given cookies.
    pub fn new(cookies: Vec<SessionCookie>, user_agent: String, url: String) -> (s: BrowserSession)
        ensures
            s.cookies == cookies,
            s.user_agent == user_agent,
            s.url == url,
            s.extra_headers@.len() == 0,
    {
        BrowserSession { cookies, user_agent, url, extra_headers: TextMap::new() }
    }

    /// The cookies for a domain.
    pub fn cookies_for_domain(&self, domain: &str) -> (r: Vec<&SessionCookie>)
        ensures
            r@.map_values(|c: &SessionCookie| *c) == self.cookies@.filter(
                |c: SessionCookie| domain_matches(c.domain@, domain@),
            ),
    {
        let ghost keep = |c: SessionCookie| domain_matches(c.domain@, domain@);
        let mut r: Vec<&SessionCookie> = Vec::new();
        let mut i: usize = 0;
        reveal(Seq::filter);
        while i < self.cookies.len()
            invariant
                i <= self.cookies.len(),
                keep == (|c: SessionCookie| domain_matches(c.domain@, domain@)),
                r@.map_values(|c: &SessionCookie| *c) == self.cookies@.take(i as int).filter(keep),
            decreases self.cookies.len() - i,
        {
            reveal(Seq::filter);
            let ghost before = r@;
            let cookie = &self.cookies[i];
            assert(self.cookies@.take(i + 1).drop_last() =~= self.cookies@.take(i as int));
            if is_for_domain(cookie.domain.as_str(), domain) {
                r.push(cookie);
                assert(r@.map_values(|c: &SessionCookie| *c) =~= before.map_values(
                    |c: &SessionCookie| *c,
                ).push(*cookie));
            }
            i = i + 1;
        }
        assert(self.cookies@.take(i as int) =~= self.cookies@);
        r
    }

    /// The value of a `Cookie` header with all cookies.
    pub fn cookie_header(&self) -> (out: String)
        ensures
            out@ == join(cookie_pairs(self.cookies@), "; "@),
    {
        let mut pairs: Vec<String> = Vec::new();
        while pairs.len() < self.cookies.len()
            invariant
                pairs.len() <= self.cookies.len(),
                forall|j: int|
                    0 <= j < pairs.len() ==> (#[trigger] pairs@[j])@ == cookie_pair(
                        self.cookies@[j],
                    ),
            decreases self.cookies.len() - pairs.len(),
        {
            let cookie = &self.cookies[pairs.len()];
            let name = sanitize_cookie_name(cookie.name.as_str());
            let value = escape_cookie_value(cookie.value.as_str());
            pairs.push(concat3(name.as_str(), "=", value.as_str()));
        }
        assert(string_views(pairs@) =~= cookie_pairs(self.cookies@));
        joined(&pairs, "; ")
    }
}

/// The value of an upper-case hexadecimal digit.
pub open spec fn hex_value(c: char) -> Option<int> {
    if '0' <= c <= '9' {
        Some(c as int - 48)
    } else if 'A' <= c <= 'F' {
        Some(c as int - 55)
    } else {
        None
    }
}

/// The code at the head of `t`, where `t` begins with a percent sign and two digits.
pub open spec fn percent_code(t: Seq<char>) -> Option<int> {
    if t.len() >= 3 && t[0] == '%' {
        match (hex_value(t[1]), hex_value(t[2])) {
            (Some(high), Some(low)) => Some(16 * high + low),
            _ => None,
        }
    } else {
        None
    }
}

/// The bytes that a percent-encoded text stands for.
pub open spec fn percent_bytes(t: Seq<char>) -> Option<Seq<u8>>
    decreases t.len(),
{
    if t.len() == 0 {
        Some(Seq::empty())
    } else if t[0] != '%' {
        match percent_bytes(t.skip(1)) {
            Some(rest) => Some(seq![t[0] as u8] + rest),
            None => None,
        }
    } else {
        match percent_code(t) {
            Some(code) => match percent_bytes(t.skip(3)) {
                Some(rest) => Some(seq![code as u8] + rest),
                None => None,
            },
            None => None,
        }
    }
}

/// Where each byte stands as it is, if it is ASCII and no percent sign, or
/// percent-encoded, decoding gives the bytes.
proof fn lemma_bytes_decode(bytes: Seq<u8>, f: spec_fn(u8) -> Seq<char>, i: int)
    requires
        0 <= i <= bytes.len(),
        forall|k: int|
            0 <= k < bytes.len() ==> #[trigger] f(bytes[k]) == coded(bytes[k], false) || (f(
                bytes[k],
            ) == coded(bytes[k], true) && bytes[k] < 128 && bytes[k] != 37),
    ensures
        percent_bytes(spread_from(bytes, f, i)) == Some(bytes.skip(i)),
    decreases bytes.len() - i,
{
    if i == bytes.len() {
        assert(bytes.skip(i) =~= Seq::empty());
    } else {
        lemma_bytes_decode(bytes, f, i + 1);
        let b = bytes[i];
        let head = f(b);
        let rest = spread_from(bytes, f, i + 1);
        let t = head + rest;
        assert(spread_from(bytes, f, i) == t);
        assert(t.skip(head.len() as int) =~= rest);
        assert(seq![b] + bytes.skip(i + 1) =~= bytes.skip(i));
        assert(t[0] == head[0]);
        if head == coded(b, false) {
            assert(t[1] == head[1] && t[2] == head[2]);
            let high = b as int / 16;
            let low = b as int % 16;
            assert(hex_value(hex_digit(high)) == Some(high));
            assert(hex_value(hex_digit(low)) == Some(low));
            assert(percent_code(t) == Some(b as int));
        } else {
            assert(t[0] as u8 == b);
        }
    }
}

/// Decoding a cookie's value in a header gives the value's bytes.
pub proof fn law_cookie_value_decodes(value: Seq<char>)
    ensures
        percent_bytes(escaped_value(value)) == Some(vstd::utf8::encode_utf8(value)),
{
    let bytes = vstd::utf8::encode_utf8(value);
    lemma_bytes_decode(bytes, |b: u8| value_piece(b), 0);
    assert(bytes.skip(0) =~= bytes);
}

/// Decoding a cookie's name in a header gives the name's bytes, for a name without
/// a percent sign.
pub proof fn law_cookie_name_decodes(name: Seq<char>)
    requires
        !vstd::utf8::encode_utf8(name).contains(37),
    ensures
        percent_bytes(sanitized_name(name)) == Some(vstd::utf8::encode_utf8(name)),
{
    let bytes = vstd::utf8::encode_utf8(name);
    let f = |b: u8| name_piece(b);
    assert forall|k: int| 0 <= k < bytes.len() implies #[trigger] f(bytes[k]) == coded(
        bytes[k],
        false,
    ) || (f(bytes[k]) == coded(bytes[k], true) && bytes[k] < 128 && bytes[k] != 37) by {
        assert(bytes.contains(bytes[k]));
    }
    lemma_bytes_decode(bytes, f, 0);
    assert(bytes.skip(0) =~= bytes);
}

/// A character that RFC 6265 allows in a cookie's value.
pub open spec fn in_value(c: char) -> bool {
    '!' <= c <= '~' && c != '"' && c != ',' && c != ';' && c != '\\'
}

/// A character that can stand in a cookie's name in a header.
pub open spec fn in_name(c: char) -> bool {
    '!' <= c <= '~' && c != '=' && c != ';' && c != ','
}

/// A character that can stand in a cookie header beside the separators.
pub open spec fn harmless(c: char) -> bool {
    '!' <= c <= '~' && c != ';' && c != ','
}

/// Whatever a cookie holds, only characters that RFC 6265 allows stand in its value
/// in a header.
pub proof fn law_cookie_value_is_legal(value: Seq<char>)
    ensures
        forall|k: int|
            0 <= k < escaped_value(value).len() ==> in_value(#[trigger] escaped_value(value)[k]),
{
    let f = |b: u8| value_piece(b);
    let p = |c: char| in_value(c);
    assert forall|b: u8, k: int| 0 <= k < f(b).len() implies p(#[trigger] f(b)[k]) by {
        assert(f(b) == value_piece(b));
        let high = b as int / 16;
        let low = b as int % 16;
        assert(hex_value(hex_digit(high)) == Some(high));
        assert(hex_value(hex_digit(low)) == Some(low));
    }
    let bytes = vstd::utf8::encode_utf8(value);
    lemma_spread_all(bytes, f, p, 0);
    assert(escaped_value(value) == spread_from(bytes, f, 0));
    assert forall|k: int| 0 <= k < escaped_value(value).len() implies in_value(
        #[trigger] escaped_value(value)[k],
    ) by {
        assert(p(spread_from(bytes, f, 0)[k]));
    }
}

proof fn lemma_pair(cookie: SessionCookie)
    ensures
        forall|k: int|
            0 <= k < sanitized_name(cookie.name@).len() ==> in_name(
                #[trigger] sanitized_name(cookie.name@)[k],
            ),
        forall|k: int| 0 <= k < cookie_pair(cookie).len() ==> harmless(
            #[trigger] cookie_pair(cookie)[k],
        ),
{
    reveal_strlit("=");
    let f = |b: u8| name_piece(b);
    let p = |c: char| in_name(c);
    assert forall|b: u8, k: int| 0 <= k < f(b).len() implies p(#[trigger] f(b)[k]) by {
        assert(f(b) == name_piece(b));
        let high = b as int / 16;
        let low = b as int % 16;
        assert(hex_value(hex_digit(high)) == Some(high));
        assert(hex_value(hex_digit(low)) == Some(low));
    }
    let bytes = vstd::utf8::encode_utf8(cookie.name@);
    lemma_spread_all(bytes, f, p, 0);
    let name = sanitized_name(cookie.name@);
    let value = escaped_value(cookie.value@);
    assert(name == spread_from(bytes, f, 0));
    assert forall|k: int| 0 <= k < name.len() implies in_name(#[trigger] name[k]) by {
        assert(p(spread_from(bytes, f, 0)[k]));
    }
    law_cookie_value_is_legal(cookie.value@);
    let pair = cookie_pair(cookie);
    assert forall|k: int| 0 <= k < pair.len() implies harmless(#[trigger] pair[k]) by {
        if k < name.len() {
            assert(in_name(name[k]));
        } else if k > name.len() {
            assert(in_value(value[k - name.len() - 1]));
        }
    }
}

/// Whatever the cookies hold, a cookie header is a single line, and comes apart
/// into exactly its cookies.
pub proof fn law_cookie_header_comes_apart(cookies: Seq<SessionCookie>)
    ensures
        forall|k: int|
            0 <= k < join(cookie_pairs(cookies), "; "@).len() ==> {
                let c = #[trigger] join(cookie_pairs(cookies), "; "@)[k];
                c != '\r' && c != '\n'
            },
        cookies.len() > 0 ==> split(join(cookie_pairs(cookies), "; "@), "; "@) == cookie_pairs(
            cookies,
        ),
{
    reveal_strlit("; ");
    let pairs = cookie_pairs(cookies);
    let p = |c: char| c != '\r' && c != '\n';
    assert forall|i: int, k: int| 0 <= i < pairs.len() && 0 <= k < pairs[i].len() implies harmless(
        #[trigger] pairs[i][k],
    ) by {
        lemma_pair(cookies[i]);
        assert(pairs[i] == cookie_pair(cookies[i]));
    }
    assert forall|i: int, k: int| 0 <= i < pairs.len() && 0 <= k < pairs[i].len() implies p(
        #[trigger] pairs[i][k],
    ) by {
        assert(harmless(pairs[i][k]));
    }
    lemma_join_all(pairs, "; "@, p);
    assert forall|k: int| 0 <= k < join(pairs, "; "@).len() implies {
        let c = #[trigger] join(pairs, "; "@)[k];
        c != '\r' && c != '\n'
    } by {
        assert(p(join(pairs, "; "@)[k]));
    }
    if cookies.len() > 0 {
        assert forall|i: int, k: int|
            0 <= i < pairs.len() && 0 <= k < pairs[i].len() implies #[trigger] pairs[i][k]
            != "; "@[0] by {
            assert(harmless(pairs[i][k]));
        }
        lemma_split_join(pairs, "; "@);
    }
}

/// The first equals sign of a cookie in a header is the one after its name.
pub proof fn law_cookie_name_ends_at_equals(cookie: SessionCookie)
    ensures
        find(cookie_pair(cookie), seq!['=']) == Some(
            sanitized_name(cookie.name@).len() as int,
        ),
{
    reveal_strlit("=");
    lemma_pair(cookie);
    let pair = cookie_pair(cookie);
    let n = sanitized_name(cookie.name@).len() as int;
    assert forall|k: int| 0 <= k < n implies !occurs_at(pair, seq!['='], k) by {
        assert(in_name(sanitized_name(cookie.name@)[k]));
        assert(pair[k] == sanitized_name(cookie.name@)[k]);
        if occurs_at(pair, seq!['='], k) {
            assert(pair.subrange(k, k + 1)[0] == '=');
        }
    }
    lemma_find_from_advance(pair, seq!['='], 0, n);
    assert(pair.subrange(n, n + 1) =~= seq!['=']);
    assert(occurs_at(pair, seq!['='], n));
}

/// A domain cookie is for its own domain and everything below it, and for nothing
/// that merely ends in the same letters.
pub proof fn law_domain_cookies(base: Seq<char>, label: Seq<char>)
    ensures
        domain_matches(seq!['.'] + base, base),
        domain_matches(seq!['.'] + base, label + seq!['.'] + base),
        label.len() > 0 && label.last() != '.' ==> !domain_matches(
            seq!['.'] + base,
            label + base,
        ),
{
    let dotted = seq!['.'] + base;
    assert(dotted.skip(1) =~= base);
    let below = label + seq!['.'] + base;
    assert(below.skip(below.len() - dotted.len()) =~= dotted);
    if label.len() > 0 && label.last() != '.' {
        let other = label + base;
        if dotted.is_suffix_of(other) {
            let at = other.len() - dotted.len();
            assert(other.subrange(at, other.len() as int)[0] == '.');
            assert(other[at] == label.last());
        }
    }
}

/// A domain cookie is for its own domain and for every domain below it, and for no
/// other: neither one above it nor one beside it.
pub proof fn law_domain_cookie_stays_below(base: Seq<char>, domain: Seq<char>)
    ensures
        domain_matches(seq!['.'] + base, domain) <==> (domain == base || exists|label: Seq<char>|
            domain == #[trigger] (label + seq!['.'] + base)),
        domain.len() < base.len() ==> !domain_matches(seq!['.'] + base, domain),
{
    let dotted = seq!['.'] + base;
    assert(dotted.skip(1) =~= base);
    if dotted.is_suffix_of(domain) {
        let n = domain.len() - dotted.len();
        let label = domain.take(n);
        assert(domain =~= label + seq!['.'] + base) by {
            assert(domain.subrange(n, domain.len() as int) =~= dotted);
            assert forall|i: int| 0 <= i < domain.len() implies domain[i] == (label + seq!['.']
                + base)[i] by {
                if i >= n {
                    assert(domain.subrange(n, domain.len() as int)[i - n] == dotted[i - n]);
                }
            }
        }
    }
    if exists|label: Seq<char>| domain == #[trigger] (label + seq!['.'] + base) {
        let label = choose|label: Seq<char>| domain == #[trigger] (label + seq!['.'] + base);
        assert(domain.subrange(domain.len() - dotted.len(), domain.len() as int) =~= dotted);
    }
}

/// A cookie in a header is its name, an equals sign and its value: what stands
/// before the first equals sign decodes to the name, where that holds no percent
/// sign, and what stands behind it to the value.
pub proof fn law_cookie_pair_tells_name_and_value(cookie: SessionCookie)
    ensures
        find(cookie_pair(cookie), seq!['=']) matches Some(at) && {
            &&& !vstd::utf8::encode_utf8(cookie.name@).contains(37) ==> percent_bytes(
                cookie_pair(cookie).take(at),
            ) == Some(vstd::utf8::encode_utf8(cookie.name@))
            &&& percent_bytes(cookie_pair(cookie).skip(at + 1)) == Some(
                vstd::utf8::encode_utf8(cookie.value@),
            )
        },
{
    reveal_strlit("=");
    law_cookie_name_ends_at_equals(cookie);
    law_cookie_value_decodes(cookie.value@);
    let pair = cookie_pair(cookie);
    let n = sanitized_name(cookie.name@).len() as int;
    assert(pair.take(n) =~= sanitized_name(cookie.name@));
    assert(pair.skip(n + 1) =~= escaped_value(cookie.value@));
    if !vstd::utf8::encode_utf8(cookie.name@).contains(37) {
        law_cookie_name_decodes(cookie.name@);
    }
}

/// Where each byte stands as it is, the text is those bytes.
proof fn lemma_spread_plain(bytes: Seq<u8>, f: spec_fn(u8) -> Seq<char>, i: int)
    requires
        0 <= i <= bytes.len(),
        forall|k: int| 0 <= k < bytes.len() ==> #[trigger] f(bytes[k]) == seq![bytes[k] as char],
    ensures
        spread_from(bytes, f, i).len() == bytes.len() - i,
        forall|k: int|
            0 <= k < bytes.len() - i ==> #[trigger] spread_from(bytes, f, i)[k] == bytes[i
                + k] as char,
    decreases bytes.len() - i,
{
    if i < bytes.len() {
        lemma_spread_plain(bytes, f, i + 1);
        let rest = spread_from(bytes, f, i + 1);
        assert(f(bytes[i]) == seq![bytes[i] as char]);
        assert(spread_from(bytes, f, i) == seq![bytes[i] as char] + rest);
        assert forall|k: int| 0 <= k < bytes.len() - i implies #[trigger] spread_from(
            bytes,
            f,
            i,
        )[k] == bytes[i + k] as char by {
            if k > 0 {
                assert(rest[k - 1] == bytes[i + 1 + (k - 1)] as char);
            }
        }
    }
}

/// A value that needs no encoding stands in a header as it is.
pub proof fn law_legal_value_stays(value: Seq<char>)
    requires
        forall|k: int|
            0 <= k < vstd::utf8::encode_utf8(value).len() ==> {
                let b = #[trigger] vstd::utf8::encode_utf8(value)[k];
                0x21 <= b <= 0x7e && b != 0x22 && b != 0x25 && b != 0x2c && b != 0x3b && b != 0x5c
            },
    ensures
        escaped_value(value).len() == vstd::utf8::encode_utf8(value).len(),
        forall|k: int|
            0 <= k < escaped_value(value).len() ==> #[trigger] escaped_value(value)[k]
                == vstd::utf8::encode_utf8(value)[k] as char,
{
    let bytes = vstd::utf8::encode_utf8(value);
    let f = |b: u8| value_piece(b);
    assert forall|k: int| 0 <= k < bytes.len() implies #[trigger] f(bytes[k])
        == seq![bytes[k] as char] by {
        assert(f(bytes[k]) == value_piece(bytes[k]));
    }
    lemma_spread_plain(bytes, f, 0);
}

/// A name that needs no encoding stands in a header as it is.
pub proof fn law_token_name_stays(name: Seq<char>)
    requires
        forall|k: int|
            0 <= k < vstd::utf8::encode_utf8(name).len() ==> {
                let b = #[trigger] vstd::utf8::encode_utf8(name)[k];
                0x21 <= b <= 0x7e && is_token_char(b as char)
            },
    ensures
        sanitized_name(name).len() == vstd::utf8::encode_utf8(name).len(),
        forall|k: int|
            0 <= k < sanitized_name(name).len() ==> #[trigger] sanitized_name(name)[k]
                == vstd::utf8::encode_utf8(name)[k] as char,
{
    let bytes = vstd::utf8::encode_utf8(name);
    let f = |b: u8| name_piece(b);
    assert forall|k: int| 0 <= k < bytes.len() implies #[trigger] f(bytes[k])
        == seq![bytes[k] as char] by {
        assert(f(bytes[k]) == name_piece(bytes[k]));
        assert(is_token_char(bytes[k] as char));
    }
    lemma_spread_plain(bytes, f, 0);
}

/// A visible character that RFC 6265 allows in a cookie's name.
pub open spec fn is_token_char(c: char) -> bool {
    &&& '!' <= c <= '~'
    &&& c != '(' && c != ')' && c != '<' && c != '>' && c != '@' && c != ',' && c != ';' && c != ':'
    &&& c != '\\' && c != '"' && c != '/' && c != '[' && c != ']' && c != '?' && c != '='
    &&& c != '{' && c != '}'
}

/// Whatever a cookie is called, only characters that RFC 6265 allows stand in its
/// name in a header.
pub proof fn law_cookie_name_is_legal(name: Seq<char>)
    ensures
        forall|k: int|
            0 <= k < sanitized_name(name).len() ==> is_token_char(
                #[trigger] sanitized_name(name)[k],
            ),
{
    let f = |b: u8| name_piece(b);
    let p = |c: char| is_token_char(c);
    assert forall|b: u8, k: int| 0 <= k < f(b).len() implies p(#[trigger] f(b)[k]) by {
        assert(f(b) == name_piece(b));
        let high = b as int / 16;
        let low = b as int % 16;
        assert(hex_value(hex_digit(high)) == Some(high));
        assert(hex_value(hex_digit(low)) == Some(low));
    }
    let bytes = vstd::utf8::encode_utf8(name);
    lemma_spread_all(bytes, f, p, 0);
    assert(sanitized_name(name) == spread_from(bytes, f, 0));
    assert forall|k: int| 0 <= k < sanitized_name(name).len() implies is_token_char(
        #[trigger] sanitized_name(name)[k],
    ) by {
        assert(p(spread_from(bytes, f, 0)[k]));
    }
}

/// A host cookie is for its own host only.
pub proof fn law_host_cookies(host: Seq<char>, domain: Seq<char>)
    requires
        !(host.len() > 0 && host[0] == '.'),
    ensures
        domain_matches(host, domain) <==> domain == host,
{
}

} // verus!
