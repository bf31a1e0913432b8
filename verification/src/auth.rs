//! Local session authentication: a single-use launch token is exchanged for
//! a session cookie and a CSRF token, and later requests are authenticated
//! by that cookie and, for mutations, that CSRF token.

use vstd::prelude::*;
use vstd::utf8::{encode_utf8, encode_utf8_decode_utf8};
use crate::text::{i64_to_decimal, signed_decimal, str_equals};
use base64::Engine;
use subtle::ConstantTimeEq;

verus! {

/// The name of the session cookie.
pub const SESSION_COOKIE: &'static str = "jet_black_session";

/// The header that carries the CSRF token.
pub const CSRF_HEADER: &'static str = "x-csrf-token";

/// Random bytes behind each token.
pub const TOKEN_BYTES: usize = 32;

/// How long a session lives, in seconds.
pub const SESSION_TTL_SECS: i64 = 900;

/// How long a session lives, in milliseconds.
pub const SESSION_TTL_MS: i64 = 900_000;

/// A character with the Unicode `White_Space` property, the set that
/// `str::trim` removes.
pub open spec fn is_white_space(c: char) -> bool {
    ||| ('\u{9}' <= c && c <= '\u{d}')
    ||| c == ' '
    ||| c == '\u{85}'
    ||| c == '\u{a0}'
    ||| c == '\u{1680}'
    ||| ('\u{2000}' <= c && c <= '\u{200a}')
    ||| c == '\u{2028}'
    ||| c == '\u{2029}'
    ||| c == '\u{202f}'
    ||| c == '\u{205f}'
    ||| c == '\u{3000}'
}

fn white_space(c: char) -> (r: bool)
    ensures
        r == is_white_space(c),
{
    ('\u{9}' <= c && c <= '\u{d}') || c == ' ' || c == '\u{85}' || c == '\u{a0}' || c == '\u{1680}'
        || ('\u{2000}' <= c && c <= '\u{200a}') || c == '\u{2028}' || c == '\u{2029}'
        || c == '\u{202f}' || c == '\u{205f}' || c == '\u{3000}'
}

/// `s` without leading white space.
pub open spec fn trim_start(s: Seq<char>) -> Seq<char>
    decreases s.len(),
{
    if s.len() > 0 && is_white_space(s[0]) {
        trim_start(s.drop_first())
    } else {
        s
    }
}

/// `s` without trailing white space.
pub open spec fn trim_end(s: Seq<char>) -> Seq<char>
    decreases s.len(),
{
    if s.len() > 0 && is_white_space(s.last()) {
        trim_end(s.drop_last())
    } else {
        s
    }
}

/// `s` without leading or trailing white space.
pub open spec fn trim(s: Seq<char>) -> Seq<char> {
    trim_end(trim_start(s))
}

/// `s` begins with `prefix`.
pub open spec fn starts_with(s: Seq<char>, prefix: Seq<char>) -> bool {
    prefix.len() <= s.len() && s.take(prefix.len() as int) == prefix
}

/// Where the first `;`-separated segment of `s` ends: the index of the first
/// `;`, or the length of `s` when there is none.
pub open spec fn segment_end(s: Seq<char>) -> int
    decreases s.len(),
{
    if s.len() == 0 {
        0
    } else if s[0] == ';' {
        0
    } else {
        1 + segment_end(s.drop_first())
    }
}

/// The first segment ends at its first `;`, or at the end of `s`.
pub proof fn lemma_segment_end(s: Seq<char>, k: int)
    requires
        0 <= k <= s.len(),
        forall|i: int| 0 <= i < k ==> s[i] != ';',
        k == s.len() || s[k] == ';',
    ensures
        segment_end(s) == k,
    decreases k,
{
    if k > 0 {
        lemma_segment_end(s.drop_first(), k - 1);
    }
}

/// The first segment ends within `s`.
pub proof fn lemma_segment_end_bounds(s: Seq<char>)
    ensures
        0 <= segment_end(s) <= s.len(),
    decreases s.len(),
{
    if s.len() > 0 && s[0] != ';' {
        lemma_segment_end_bounds(s.drop_first());
    }
}

/// The value of the first cookie in a `Cookie` header whose trimmed
/// `;`-separated segment begins with `prefix` (the cookie's name and `=`).
pub open spec fn cookie_lookup(header: Seq<char>, prefix: Seq<char>) -> Option<Seq<char>>
    decreases header.len(),
{
    let end = segment_end(header);
    let segment = trim(header.take(end));
    if starts_with(segment, prefix) {
        Some(segment.skip(prefix.len() as int))
    } else if end >= header.len() {
        None
    } else {
        proof {
            lemma_segment_end_bounds(header);
        }
        cookie_lookup(header.skip(end + 1), prefix)
    }
}

/// The bounds of `header[start..end]` with white space trimmed from both
/// ends.
fn trimmed_range(header: &str, start: usize, end: usize) -> (r: (usize, usize))
    requires
        start <= end <= header@.len(),
    ensures
        start <= r.0 <= r.1 <= end,
        trim(header@.subrange(start as int, end as int)) == header@.subrange(r.0 as int, r.1 as int),
{
    let ghost h = header@;
    let mut a = start;
    while a < end && white_space(header.get_char(a))
        invariant
            h == header@,
            start <= a <= end <= h.len(),
            trim_start(h.subrange(start as int, end as int)) == trim_start(h.subrange(a as int, end as int)),
        decreases end - a,
    {
        assert(h.subrange(a as int, end as int).drop_first() =~= h.subrange(a + 1, end as int));
        a = a + 1;
    }
    assert(trim_start(h.subrange(a as int, end as int)) == h.subrange(a as int, end as int));
    let mut b = end;
    while b > a && white_space(header.get_char(b - 1))
        invariant
            h == header@,
            start <= a <= b <= end <= h.len(),
            trim_end(h.subrange(a as int, end as int)) == trim_end(h.subrange(a as int, b as int)),
        decreases b - a,
    {
        assert(h.subrange(a as int, b as int).drop_last() =~= h.subrange(a as int, b - 1));
        b = b - 1;
    }
    assert(trim_end(h.subrange(a as int, b as int)) == h.subrange(a as int, b as int));
    (a, b)
}

/// The value of the cookie `name` in a `Cookie` header: the first
/// `;`-separated segment that, trimmed, begins with `name=`.
pub fn cookie_value<'a>(header: &'a str, name: &str) -> (r: Option<&'a str>)
    ensures
        match r {
            Some(v) => cookie_lookup(header@, name@ + "="@) == Some(v@),
            None => cookie_lookup(header@, name@ + "="@) is None,
        },
{
    let mut prefix = name.to_owned();
    prefix.append("=");
    let ghost p = name@ + "="@;
    let ghost h = header@;
    let n = header.unicode_len();
    let plen = prefix.as_str().unicode_len();
    let mut pos: usize = 0;
    assert(h.skip(0) =~= h);
    while pos <= n
        invariant
            h == header@,
            p == prefix@,
            p == name@ + "="@,
            n == h.len(),
            plen == p.len(),
            pos <= n,
            cookie_lookup(h, p) == cookie_lookup(h.skip(pos as int), p),
        decreases n + 1 - pos,
    {
        let mut j = pos;
        while j < n && header.get_char(j) != ';'
            invariant
                h == header@,
                p == name@ + "="@,
                n == h.len(),
                pos <= j <= n,
                forall|k: int| pos <= k < j ==> h[k] != ';',
                cookie_lookup(h, p) == cookie_lookup(h.skip(pos as int), p),
            decreases n - j,
        {
            j = j + 1;
        }
        let ghost rest = h.skip(pos as int);
        proof {
            lemma_segment_end(rest, j - pos);
            assert(rest.take(j - pos) =~= h.subrange(pos as int, j as int));
        }
        let (a, b) = trimmed_range(header, pos, j);
        let ghost segment = h.subrange(a as int, b as int);
        assert(segment_end(rest) == j - pos);
        assert(trim(rest.take(segment_end(rest))) == segment);
        assert(cookie_lookup(rest, p) == if starts_with(segment, p) {
            Some(segment.skip(p.len() as int))
        } else if j - pos >= rest.len() {
            None
        } else {
            cookie_lookup(rest.skip(j - pos + 1), p)
        });
        let mut matches = plen <= b - a;
        let mut k: usize = 0;
        while matches && k < plen
            invariant
                h == header@,
                p == prefix@,
                p == name@ + "="@,
                plen == p.len(),
                a <= b <= n,
                n == h.len(),
                segment == h.subrange(a as int, b as int),
                cookie_lookup(h, p) == cookie_lookup(h.skip(pos as int), p),
                pos <= j <= n,
                cookie_lookup(rest, p) == if starts_with(segment, p) {
                    Some(segment.skip(p.len() as int))
                } else if j - pos >= rest.len() {
                    None
                } else {
                    cookie_lookup(rest.skip(j - pos + 1), p)
                },
                rest == h.skip(pos as int),
                matches ==> plen <= b - a,
                k <= plen,
                matches ==> forall|i: int| 0 <= i < k ==> segment[i] == p[i],
                !matches ==> !starts_with(segment, p),
            decreases plen - k + (if matches { 1int } else { 0int }),
        {
            if header.get_char(a + k) != prefix.as_str().get_char(k) {
                matches = false;
                proof {
                    assert(segment.take(p.len() as int)[k as int] != p[k as int]);
                }
            } else {
                k = k + 1;
            }
        }
        if matches {
            proof {
                assert(segment.take(p.len() as int) =~= p);
                assert(segment.skip(p.len() as int) =~= h.subrange(a + plen, b as int));
            }
            return Some(header.substring_char(a + plen, b));
        }
        if j >= n {
            return None;
        }
        proof {
            assert(rest.skip(j - pos + 1) =~= h.skip(j + 1));
        }
        pos = j + 1;
    }
    None
}

/// A character of the URL-safe base64 alphabet.
pub open spec fn is_url_safe(c: char) -> bool {
    ('A' <= c && c <= 'Z') || ('a' <= c && c <= 'z') || ('0' <= c && c <= '9') || c == '-' || c == '_'
}

/// The URL-safe base64 digit for a six-bit value: `A`-`Z`, `a`-`z`,
/// `0`-`9`, `-`, `_`.
pub open spec fn url_safe_digit(v: int) -> char {
    if v < 26 {
        (65 + v) as char
    } else if v < 52 {
        (71 + v) as char
    } else if v < 62 {
        (v - 4) as char
    } else if v == 62 {
        '-'
    } else {
        '_'
    }
}

/// RFC 4648 base64 in the URL-safe alphabet without padding: each group of
/// three bytes becomes four digits, a trailing one or two bytes become two
/// or three.
pub open spec fn base64_url(b: Seq<u8>) -> Seq<char>
    decreases b.len(),
{
    if b.len() == 0 {
        seq![]
    } else if b.len() == 1 {
        let b0 = b[0] as int;
        seq![url_safe_digit(b0 / 4), url_safe_digit((b0 % 4) * 16)]
    } else if b.len() == 2 {
        let (b0, b1) = (b[0] as int, b[1] as int);
        seq![url_safe_digit(b0 / 4), url_safe_digit((b0 % 4) * 16 + b1 / 16), url_safe_digit((b1 % 16) * 4)]
    } else {
        let (b0, b1, b2) = (b[0] as int, b[1] as int, b[2] as int);
        seq![
            url_safe_digit(b0 / 4),
            url_safe_digit((b0 % 4) * 16 + b1 / 16),
            url_safe_digit((b1 % 16) * 4 + b2 / 64),
            url_safe_digit(b2 % 64),
        ] + base64_url(b.skip(3))
    }
}

/// The length of unpadded base64 for `n` bytes.
pub open spec fn base64_len(n: nat) -> nat {
    4 * (n / 3) + (if n % 3 == 0 { 0nat } else { n % 3 + 1 })
}

proof fn lemma_url_safe_digit(v: int)
    requires
        0 <= v < 64,
    ensures
        is_url_safe(url_safe_digit(v)),
{
}

/// Unpadded URL-safe base64 has the expected length and only URL-safe
/// characters.
pub proof fn lemma_base64_url_shape(b: Seq<u8>)
    ensures
        base64_url(b).len() == base64_len(b.len()),
        forall|i: int| 0 <= i < base64_url(b).len() ==> is_url_safe(#[trigger] base64_url(b)[i]),
    decreases b.len(),
{
    if b.len() >= 3 {
        let (b0, b1, b2) = (b[0] as int, b[1] as int, b[2] as int);
        lemma_base64_url_shape(b.skip(3));
        lemma_url_safe_digit(b0 / 4);
        lemma_url_safe_digit((b0 % 4) * 16 + b1 / 16);
        lemma_url_safe_digit((b1 % 16) * 4 + b2 / 64);
        lemma_url_safe_digit(b2 % 64);
        let head = seq![
            url_safe_digit(b0 / 4),
            url_safe_digit((b0 % 4) * 16 + b1 / 16),
            url_safe_digit((b1 % 16) * 4 + b2 / 64),
            url_safe_digit(b2 % 64),
        ];
        assert(base64_url(b) == head + base64_url(b.skip(3)));
        assert forall|i: int| 0 <= i < base64_url(b).len() implies is_url_safe(#[trigger] base64_url(b)[i]) by {
            if i >= 4 {
                assert(base64_url(b)[i] == base64_url(b.skip(3))[i - 4]);
            } else {
                assert(base64_url(b)[i] == head[i]);
            }
        }
        assert((b.len() - 3) as nat / 3 == b.len() / 3 - 1);
        assert((b.len() - 3) as nat % 3 == b.len() % 3);
    } else if b.len() == 2 {
        let (b0, b1) = (b[0] as int, b[1] as int);
        lemma_url_safe_digit(b0 / 4);
        lemma_url_safe_digit((b0 % 4) * 16 + b1 / 16);
        lemma_url_safe_digit((b1 % 16) * 4);
    } else if b.len() == 1 {
        let b0 = b[0] as int;
        lemma_url_safe_digit(b0 / 4);
        lemma_url_safe_digit((b0 % 4) * 16);
    }
}

/// Calls the `encode` method of base64's `URL_SAFE_NO_PAD` engine. Claims
/// that the text is the unpadded RFC 4648 URL-safe encoding that
/// `base64_url` spells out.
#[verifier::external_body]
fn encode_url_safe(bytes: &[u8]) -> (s: String)
    requires
        bytes@.len() <= usize::MAX / 2,
    ensures
        s@ == base64_url(bytes@),
{
    base64::engine::general_purpose::URL_SAFE_NO_PAD.encode(bytes)
}

/// Calls `getrandom::fill` on a buffer of `TOKEN_BYTES` bytes and hands the
/// bytes back, or `None` when the source of randomness failed. Claims only
/// their number; their values are random.
#[verifier::external_body]
fn random_bytes() -> (r: Option<Vec<u8>>)
    ensures
        r matches Some(b) ==> b@.len() == TOKEN_BYTES,
{
    let mut bytes = [0u8; TOKEN_BYTES];
    match getrandom::fill(&mut bytes) {
        Ok(()) => Some(bytes.to_vec()),
        Err(_) => None,
    }
}

/// A token as this module issues them: the URL-safe base64 text of
/// `TOKEN_BYTES` bytes.
pub open spec fn is_issued_token(t: Seq<char>) -> bool {
    exists|b: Seq<u8>| b.len() == TOKEN_BYTES && t == base64_url(b)
}

/// A token that can stand as a cookie value: no `;` and no white space.
pub open spec fn cookie_safe(t: Seq<char>) -> bool {
    forall|i: int| 0 <= i < t.len() ==> #[trigger] t[i] != ';' && !is_white_space(t[i])
}

/// Issued tokens are 43 URL-safe characters, so they can stand as cookie
/// values.
pub proof fn lemma_issued_token_shape(t: Seq<char>)
    requires
        is_issued_token(t),
    ensures
        t.len() == 43,
        cookie_safe(t),
{
    let b = choose|b: Seq<u8>| b.len() == TOKEN_BYTES && t == base64_url(b);
    lemma_base64_url_shape(b);
    assert forall|i: int| 0 <= i < t.len() implies #[trigger] t[i] != ';' && !is_white_space(t[i]) by {
        assert(is_url_safe(t[i]));
    }
}

/// A fresh random token: 32 random bytes in URL-safe base64.
pub fn random_token() -> (r: Result<String, AuthError>)
    ensures
        match r {
            Ok(t) => is_issued_token(t@) && t@.len() == 43 && cookie_safe(t@),
            Err(e) => e == AuthError::RandomnessUnavailable,
        },
{
    match random_bytes() {
        Some(bytes) => {
            let t = encode_url_safe(bytes.as_slice());
            proof {
                assert(is_issued_token(t@));
                lemma_issued_token_shape(t@);
            }
            Ok(t)
        },
        None => Err(AuthError::RandomnessUnavailable),
    }
}

/// Calls `subtle`'s `ct_eq` on the bytes of two strings. Claims, as its
/// source shows, that it is true exactly when the byte sequences are equal
/// (unequal lengths answer false at once).
#[verifier::external_body]
fn constant_time_equal(expected: &str, presented: &str) -> (r: bool)
    ensures
        r == (encode_utf8(expected@) == encode_utf8(presented@)),
{
    expected.as_bytes().ct_eq(presented.as_bytes()).into()
}

/// Compares two secrets in time independent of their contents.
pub fn same_secret(expected: &str, presented: &str) -> (r: bool)
    ensures
        r == (expected@ == presented@),
{
    let r = constant_time_equal(expected, presented);
    proof {
        encode_utf8_decode_utf8(expected@);
        encode_utf8_decode_utf8(presented@);
    }
    r
}

/// Reads the system clock as milliseconds since the Unix epoch (zero before
/// it). Nothing is claimed of the value: it is the time.
#[verifier::external_body]
pub(crate) fn now_unix_ms() -> (ms: i64) {
    std::time::SystemTime::now()
        .duration_since(std::time::UNIX_EPOCH)
        .unwrap_or_default()
        .as_millis() as i64
}

/// Why a request was not authenticated.
#[derive(Debug, Clone, Copy, PartialEq, Eq, Structural)]
pub enum AuthError {
    StateUnavailable,
    RandomnessUnavailable,
    InvalidExchangeToken,
    ExchangeConsumed,
    MissingSession,
    InvalidSession,
    MissingCsrf,
    InvalidCsrf,
}

/// The text that describes each authentication failure.
pub open spec fn auth_error_text(e: AuthError) -> Seq<char> {
    match e {
        AuthError::StateUnavailable => "local authentication state is unavailable"@,
        AuthError::RandomnessUnavailable => "secure randomness is unavailable"@,
        AuthError::InvalidExchangeToken => "the launch exchange token is invalid"@,
        AuthError::ExchangeConsumed => "the launch exchange token has already been consumed"@,
        AuthError::MissingSession => "the local session cookie is missing"@,
        AuthError::InvalidSession => "the local session is invalid or expired"@,
        AuthError::MissingCsrf => "the CSRF token is missing"@,
        AuthError::InvalidCsrf => "the CSRF token is invalid"@,
    }
}

impl AuthError {
    /// What went wrong, in words.
    pub fn message(&self) -> (s: &'static str)
        ensures
            s@ == auth_error_text(*self),
    {
        match self {
            AuthError::StateUnavailable => "local authentication state is unavailable",
            AuthError::RandomnessUnavailable => "secure randomness is unavailable",
            AuthError::InvalidExchangeToken => "the launch exchange token is invalid",
            AuthError::ExchangeConsumed => "the launch exchange token has already been consumed",
            AuthError::MissingSession => "the local session cookie is missing",
            AuthError::InvalidSession => "the local session is invalid or expired",
            AuthError::MissingCsrf => "the CSRF token is missing",
            AuthError::InvalidCsrf => "the CSRF token is invalid",
        }
    }
}

/// What a successful exchange hands the browser besides the cookie.
#[derive(Debug, Clone, PartialEq, Eq)]
pub struct SessionExchange {
    pub csrf_token: String,
    pub expires_at_unix_ms: i64,
}

/// The `Set-Cookie` value of the session cookie for `token`.
pub open spec fn session_cookie_text(token: Seq<char>) -> Seq<char> {
    "jet_black_session="@ + token + "; HttpOnly; SameSite=Strict; Path=/; Max-Age="@ + signed_decimal(SESSION_TTL_SECS as int)
}

/// The session cookie for `token`: HTTP-only, same-site strict, for the
/// whole origin, living as long as the session.
pub fn session_cookie(token: &str) -> (c: String)
    ensures
        c@ == session_cookie_text(token@),
{
    let mut c = String::from_str("jet_black_session=");
    c.append(token);
    c.append("; HttpOnly; SameSite=Strict; Path=/; Max-Age=");
    let age = i64_to_decimal(SESSION_TTL_SECS);
    c.append(age.as_str());
    c
}

/// A session as the library reasons about it: its token, its CSRF token and
/// when it expires.
pub type SessionRecord = (Seq<char>, Seq<char>, i64);

/// The CSRF token and expiry of the latest session under `token`.
pub open spec fn lookup_session(s: Seq<SessionRecord>, token: Seq<char>) -> Option<(Seq<char>, i64)>
    decreases s.len(),
{
    if s.len() == 0 {
        None
    } else if s.last().0 == token {
        Some((s.last().1, s.last().2))
    } else {
        lookup_session(s.drop_last(), token)
    }
}

/// No token names two sessions.
pub open spec fn distinct_tokens(s: Seq<SessionRecord>) -> bool
    decreases s.len(),
{
    s.len() == 0 || (lookup_session(s.drop_last(), s.last().0) is None && distinct_tokens(s.drop_last()))
}

/// The sessions other than the one under `token`.
pub open spec fn without_token(s: Seq<SessionRecord>, token: Seq<char>) -> Seq<SessionRecord>
    decreases s.len(),
{
    if s.len() == 0 {
        s
    } else {
        let rest = without_token(s.drop_last(), token);
        if s.last().0 == token { rest } else { rest.push(s.last()) }
    }
}

/// The sessions that expire after `now`.
pub open spec fn unexpired(s: Seq<SessionRecord>, now: i64) -> Seq<SessionRecord>
    decreases s.len(),
{
    if s.len() == 0 {
        s
    } else {
        let rest = unexpired(s.drop_last(), now);
        if s.last().2 > now { rest.push(s.last()) } else { rest }
    }
}

/// Removing a token's session forgets that token and keeps every other.
pub proof fn lemma_without_token(s: Seq<SessionRecord>, token: Seq<char>, u: Seq<char>)
    ensures
        lookup_session(without_token(s, token), u) == if u == token { None } else { lookup_session(s, u) },
        distinct_tokens(s) ==> distinct_tokens(without_token(s, token)),
    decreases s.len(),
{
    if s.len() > 0 {
        lemma_without_token(s.drop_last(), token, u);
        lemma_without_token(s.drop_last(), token, s.last().0);
        let rest = without_token(s.drop_last(), token);
        if s.last().0 != token {
            assert(rest.push(s.last()).drop_last() =~= rest);
        }
    }
}

/// Pruning expired sessions keeps exactly the sessions that expire later.
pub proof fn lemma_unexpired(s: Seq<SessionRecord>, now: i64, u: Seq<char>)
    requires
        distinct_tokens(s),
    ensures
        lookup_session(unexpired(s, now), u) == match lookup_session(s, u) {
            Some(v) => if v.1 > now { Some(v) } else { None },
            None => None,
        },
        distinct_tokens(unexpired(s, now)),
    decreases s.len(),
{
    if s.len() > 0 {
        lemma_unexpired(s.drop_last(), now, u);
        lemma_unexpired(s.drop_last(), now, s.last().0);
        let rest = unexpired(s.drop_last(), now);
        if s.last().2 > now {
            assert(rest.push(s.last()).drop_last() =~= rest);
        }
    }
}

#[derive(Debug)]
struct Session {
    token: String,
    csrf_token: String,
    expires_at_unix_ms: i64,
}

spec fn session_record(s: Session) -> SessionRecord {
    (s.token@, s.csrf_token@, s.expires_at_unix_ms)
}

/// The characters of an optional header value.
pub open spec fn text_view(t: Option<&str>) -> Option<Seq<char>> {
    match t {
        Some(v) => Some(v@),
        None => None,
    }
}

/// The outcome of presenting a launch token.
pub open spec fn exchange_check(launch: Option<Seq<char>>, presented: Seq<char>) -> Result<(), AuthError> {
    match launch {
        None => Err(AuthError::ExchangeConsumed),
        Some(t) => if t == presented { Ok(()) } else { Err(AuthError::InvalidExchangeToken) },
    }
}

/// The expiry of a session created at `now`.
pub open spec fn session_expiry(now: i64) -> i64 {
    if now > i64::MAX - SESSION_TTL_MS { i64::MAX } else { (now + SESSION_TTL_MS) as i64 }
}

/// The outcome of authenticating a request with the given `Cookie` and CSRF
/// headers at `now`.
pub open spec fn authentication_check(
    sessions: Seq<SessionRecord>,
    cookie_header: Option<Seq<char>>,
    csrf_header: Option<Seq<char>>,
    require_csrf: bool,
    now: i64,
) -> Result<(), AuthError> {
    let token = match cookie_header {
        Some(h) => cookie_lookup(h, "jet_black_session="@),
        None => None,
    };
    match token {
        None => Err(AuthError::MissingSession),
        Some(t) => match lookup_session(unexpired(sessions, now), t) {
            None => Err(AuthError::InvalidSession),
            Some(v) => if !require_csrf {
                Ok(())
            } else {
                match csrf_header {
                    None => Err(AuthError::MissingCsrf),
                    Some(c) => if c == v.0 { Ok(()) } else { Err(AuthError::InvalidCsrf) },
                }
            },
        },
    }
}

/// The sessions after authenticating a request: expired sessions are pruned
/// once the request presents a session cookie.
pub open spec fn sessions_after_authentication(sessions: Seq<SessionRecord>, cookie_header: Option<Seq<char>>, now: i64) -> Seq<SessionRecord> {
    let token = match cookie_header {
        Some(h) => cookie_lookup(h, "jet_black_session="@),
        None => None,
    };
    if token is None { sessions } else { unexpired(sessions, now) }
}

/// The local sessions of one server, and the launch token that opens the
/// first of them.
#[derive(Debug)]
pub struct SessionManager {
    launch_token: Option<String>,
    sessions: Vec<Session>,
}

impl SessionManager {
    /// No two sessions share a token.
    #[verifier::type_invariant]
    spec fn tokens_distinct(&self) -> bool {
        distinct_tokens(self.sessions())
    }

    /// The launch token, while it has not been exchanged.
    pub closed spec fn launch(&self) -> Option<Seq<char>> {
        match self.launch_token {
            Some(t) => Some(t@),
            None => None,
        }
    }

    /// The live and expired sessions not yet pruned.
    pub closed spec fn sessions(&self) -> Seq<SessionRecord> {
        self.sessions@.map_values(|s: Session| session_record(s))
    }

    /// A manager whose launch token is `launch_token` and that has no
    /// session yet.
    pub fn with_launch_token(launch_token: String) -> (m: SessionManager)
        ensures
            m.launch() == Some(launch_token@),
            m.sessions() == Seq::<SessionRecord>::empty(),
            distinct_tokens(m.sessions()),
    {
        let m = SessionManager { launch_token: Some(launch_token), sessions: Vec::new() };
        assert(m.sessions() =~= Seq::<SessionRecord>::empty());
        m
    }

    /// A manager under a fresh random launch token, handed back beside it.
    pub fn new() -> (r: Result<(SessionManager, String), AuthError>)
        ensures
            match r {
                Ok((m, t)) => m.launch() == Some(t@) && m.sessions().len() == 0 && is_issued_token(t@)
                    && distinct_tokens(m.sessions()),
                Err(e) => e == AuthError::RandomnessUnavailable,
            },
    {
        let token = random_token()?;
        let copy = token.clone();
        Ok((SessionManager::with_launch_token(token), copy))
    }

    fn remove_session(&mut self, token: &str)
        ensures
            final(self).sessions() == without_token(old(self).sessions(), token@),
            final(self).launch() == old(self).launch(),
    {
        proof {
            use_type_invariant(&*self);
            lemma_without_token(self.sessions(), token@, token@);
        }
        let ghost old_sessions = self.sessions();
        let mut kept: Vec<Session> = Vec::new();
        let mut i: usize = 0;
        while i < self.sessions.len()
            invariant
                old_sessions == self.sessions(),
                i <= self.sessions@.len(),
                kept@.map_values(|s: Session| session_record(s)) == without_token(old_sessions.take(i as int), token@),
            decreases self.sessions@.len() - i,
        {
            proof {
                assert(old_sessions.take(i + 1).drop_last() =~= old_sessions.take(i as int));
                assert(old_sessions[i as int] == session_record(self.sessions@[i as int]));
            }
            let entry = &self.sessions[i];
            if !str_equals(entry.token.as_str(), token) {
                let ghost before = kept@;
                kept.push(Session {
                    token: entry.token.clone(),
                    csrf_token: entry.csrf_token.clone(),
                    expires_at_unix_ms: entry.expires_at_unix_ms,
                });
                proof {
                    assert(kept@.map_values(|s: Session| session_record(s)) =~= before.map_values(
                        |s: Session| session_record(s),
                    ).push(old_sessions[i as int]));
                }
            }
            i = i + 1;
        }
        proof {
            assert(old_sessions.take(old_sessions.len() as int) =~= old_sessions);
        }
        self.sessions = kept;
    }

    fn prune_expired(&mut self, now: i64)
        ensures
            final(self).sessions() == unexpired(old(self).sessions(), now),
            final(self).launch() == old(self).launch(),
    {
        proof {
            use_type_invariant(&*self);
            lemma_unexpired(self.sessions(), now, seq![]);
        }
        let ghost old_sessions = self.sessions();
        let mut kept: Vec<Session> = Vec::new();
        let mut i: usize = 0;
        while i < self.sessions.len()
            invariant
                old_sessions == self.sessions(),
                i <= self.sessions@.len(),
                kept@.map_values(|s: Session| session_record(s)) == unexpired(old_sessions.take(i as int), now),
            decreases self.sessions@.len() - i,
        {
            proof {
                assert(old_sessions.take(i + 1).drop_last() =~= old_sessions.take(i as int));
                assert(old_sessions[i as int] == session_record(self.sessions@[i as int]));
            }
            let entry = &self.sessions[i];
            if entry.expires_at_unix_ms > now {
                let ghost before = kept@;
                kept.push(Session {
                    token: entry.token.clone(),
                    csrf_token: entry.csrf_token.clone(),
                    expires_at_unix_ms: entry.expires_at_unix_ms,
                });
                proof {
                    assert(kept@.map_values(|s: Session| session_record(s)) =~= before.map_values(
                        |s: Session| session_record(s),
                    ).push(old_sessions[i as int]));
                }
            }
            i = i + 1;
        }
        proof {
            assert(old_sessions.take(old_sessions.len() as int) =~= old_sessions);
        }
        self.sessions = kept;
    }

    fn find_session(&self, token: &str) -> (r: Option<usize>)
        ensures
            match r {
                Some(i) => i < self.sessions().len() && lookup_session(self.sessions(), token@) == Some(
                    (self.sessions()[i as int].1, self.sessions()[i as int].2),
                ),
                None => lookup_session(self.sessions(), token@) is None,
            },
    {
        let ghost all = self.sessions();
        let mut i = self.sessions.len();
        assert(all.take(i as int) =~= all);
        while i > 0
            invariant
                all == self.sessions(),
                i <= all.len(),
                lookup_session(all, token@) == lookup_session(all.take(i as int), token@),
            decreases i,
        {
            assert(all.take(i as int).drop_last() =~= all.take(i - 1));
            assert(all[i - 1] == session_record(self.sessions@[i - 1]));
            if str_equals(self.sessions[i - 1].token.as_str(), token) {
                return Some(i - 1);
            }
            i = i - 1;
        }
        None
    }

    /// Exchanges the launch token for a session, with the tokens and the
    /// time given: a consumed launch token or a different one is refused;
    /// the right one is consumed and opens a session under `session_token`.
    pub fn exchange_with(&mut self, presented: &str, session_token: String, csrf_token: String, now_unix_ms: i64) -> (r: Result<(String, SessionExchange), AuthError>)
        ensures
            distinct_tokens(final(self).sessions()),
            match exchange_check(old(self).launch(), presented@) {
                Err(e) => r == Err::<(String, SessionExchange), AuthError>(e)
                    && final(self).launch() == old(self).launch()
                    && final(self).sessions() == old(self).sessions(),
                Ok(()) => r is Ok && ({
                    let (token, exchange) = r->Ok_0;
                    &&& token@ == session_token@
                    &&& exchange.csrf_token@ == csrf_token@
                    &&& exchange.expires_at_unix_ms == session_expiry(now_unix_ms)
                    &&& final(self).launch() is None
                    &&& final(self).sessions() == without_token(old(self).sessions(), session_token@).push(
                        (session_token@, csrf_token@, session_expiry(now_unix_ms)),
                    )
                }),
            },
    {
        proof {
            use_type_invariant(&*self);
        }
        let expires_at_unix_ms = if now_unix_ms > i64::MAX - SESSION_TTL_MS {
            i64::MAX
        } else {
            now_unix_ms + SESSION_TTL_MS
        };
        let accepted = match &self.launch_token {
            None => return Err(AuthError::ExchangeConsumed),
            Some(expected) => same_secret(expected.as_str(), presented),
        };
        if !accepted {
            return Err(AuthError::InvalidExchangeToken);
        }
        self.launch_token = None;
        proof {
            lemma_without_token(old(self).sessions(), session_token@, session_token@);
        }
        self.remove_session(session_token.as_str());
        let mut sessions: Vec<Session> = Vec::new();
        std::mem::swap(&mut sessions, &mut self.sessions);
        let ghost kept = sessions@.map_values(|s: Session| session_record(s));
        assert(kept == without_token(old(self).sessions(), session_token@));
        sessions.push(Session {
            token: session_token.clone(),
            csrf_token: csrf_token.clone(),
            expires_at_unix_ms,
        });
        proof {
            let opened = sessions@.map_values(|s: Session| session_record(s));
            assert(opened =~= kept.push((session_token@, csrf_token@, expires_at_unix_ms)));
            assert(opened.drop_last() =~= kept);
        }
        self.sessions = sessions;
        proof {
            assert(self.sessions() =~= without_token(old(self).sessions(), session_token@).push(
                (session_token@, csrf_token@, expires_at_unix_ms),
            ));
        }
        Ok((session_token, SessionExchange { csrf_token, expires_at_unix_ms }))
    }

    /// Exchanges the launch token for a new session under fresh random
    /// session and CSRF tokens, at the current time.
    pub fn exchange(&mut self, presented: &str) -> (r: Result<(String, SessionExchange), AuthError>)
        ensures
            distinct_tokens(final(self).sessions()),
            r is Err ==> final(self).launch() == old(self).launch() && final(self).sessions() == old(self).sessions(),
            r is Err ==> r == Err::<(String, SessionExchange), AuthError>(AuthError::RandomnessUnavailable)
                || r == Err::<(String, SessionExchange), AuthError>(exchange_check(old(self).launch(), presented@)->Err_0)
                && exchange_check(old(self).launch(), presented@) is Err,
            r is Ok ==> exchange_check(old(self).launch(), presented@) is Ok && ({
                let (token, exchange) = r->Ok_0;
                &&& is_issued_token(token@)
                &&& is_issued_token(exchange.csrf_token@)
                &&& final(self).launch() is None
                &&& final(self).sessions() == without_token(old(self).sessions(), token@).push(
                    (token@, exchange.csrf_token@, exchange.expires_at_unix_ms),
                )
            }),
    {
        proof {
            use_type_invariant(&*self);
        }
        let session_token = random_token()?;
        let csrf_token = random_token()?;
        let now = now_unix_ms();
        self.exchange_with(presented, session_token, csrf_token, now)
    }

    /// Authenticates a request from its `Cookie` header and CSRF header
    /// values at `now_unix_ms`: expired sessions are pruned, the session
    /// cookie must name a live session, and where `require_csrf` holds the
    /// CSRF header must carry that session's CSRF token.
    pub fn authenticate_at(&mut self, cookie_header: Option<&str>, csrf_header: Option<&str>, require_csrf: bool, now_unix_ms: i64) -> (r: Result<(), AuthError>)
        ensures
            distinct_tokens(final(self).sessions()),
            final(self).launch() == old(self).launch(),
            r == authentication_check(
                old(self).sessions(),
                text_view(cookie_header),
                text_view(csrf_header),
                require_csrf,
                now_unix_ms,
            ),
            final(self).sessions() == sessions_after_authentication(
                old(self).sessions(),
                text_view(cookie_header),
                now_unix_ms,
            ),
    {
        proof {
            use_type_invariant(&*self);
            reveal_strlit("jet_black_session");
            reveal_strlit("=");
            reveal_strlit("jet_black_session=");
            assert("jet_black_session"@ + "="@ =~= "jet_black_session="@);
        }
        let token = match cookie_header {
            Some(h) => cookie_value(h, SESSION_COOKIE),
            None => None,
        };
        let token = match token {
            Some(t) => t,
            None => return Err(AuthError::MissingSession),
        };
        proof {
            lemma_unexpired(old(self).sessions(), now_unix_ms, token@);
        }
        self.prune_expired(now_unix_ms);
        let index = match self.find_session(token) {
            Some(i) => i,
            None => return Err(AuthError::InvalidSession),
        };
        if require_csrf {
            let csrf = match csrf_header {
                Some(c) => c,
                None => return Err(AuthError::MissingCsrf),
            };
            if !same_secret(self.sessions[index].csrf_token.as_str(), csrf) {
                return Err(AuthError::InvalidCsrf);
            }
        }
        Ok(())
    }

    /// Authenticates a request at the current time; see `authenticate_at`.
    pub fn authenticate(&mut self, cookie_header: Option<&str>, csrf_header: Option<&str>, require_csrf: bool) -> (r: Result<(), AuthError>)
        ensures
            distinct_tokens(final(self).sessions()),
            final(self).launch() == old(self).launch(),
            exists|now: i64| {
                &&& r == #[trigger] authentication_check(
                    old(self).sessions(),
                    text_view(cookie_header),
                    text_view(csrf_header),
                    require_csrf,
                    now,
                )
                &&& final(self).sessions() == sessions_after_authentication(
                    old(self).sessions(),
                    text_view(cookie_header),
                    now,
                )
            },
    {
        proof {
            use_type_invariant(&*self);
        }
        let now = now_unix_ms();
        self.authenticate_at(cookie_header, csrf_header, require_csrf, now)
    }
}

/// The launch token after presenting `presented`: consumed on success.
pub open spec fn launch_after_exchange(launch: Option<Seq<char>>, presented: Seq<char>) -> Option<Seq<char>> {
    if exchange_check(launch, presented) is Ok { None } else { launch }
}

/// The launch token opens one session only: once an exchange succeeds,
/// every later exchange is refused because the token was consumed.
pub proof fn lemma_launch_token_is_single_use(launch: Option<Seq<char>>, first: Seq<char>, later: Seq<char>)
    requires
        exchange_check(launch, first) is Ok,
    ensures
        exchange_check(launch_after_exchange(launch, first), later) == Err::<(), AuthError>(AuthError::ExchangeConsumed),
{
}

/// The `Cookie` header a browser sends back for the session cookie.
pub open spec fn session_cookie_header(token: Seq<char>) -> Seq<char> {
    "jet_black_session="@ + token
}

/// A browser that presents the session cookie it was given finds it.
pub proof fn lemma_session_cookie_round_trip(token: Seq<char>)
    requires
        cookie_safe(token),
    ensures
        cookie_lookup(session_cookie_header(token), "jet_black_session="@) == Some(token),
{
    reveal_strlit("jet_black_session=");
    let p = "jet_black_session="@;
    let h = session_cookie_header(token);
    assert(h.len() == p.len() + token.len());
    assert forall|i: int| 0 <= i < h.len() implies h[i] != ';' by {
        if i >= p.len() {
            assert(h[i] == token[i - p.len()]);
        }
    }
    lemma_segment_end(h, h.len() as int);
    assert(h.take(h.len() as int) =~= h);
    assert(!is_white_space(h[0]));
    assert(trim_start(h) == h);
    if token.len() > 0 {
        assert(h.last() == token[token.len() - 1]);
    } else {
        assert(h.last() == '=');
    }
    assert(trim_end(h) == h);
    assert(h.take(p.len() as int) =~= p);
    assert(h.skip(p.len() as int) =~= token);
}

/// A session opened by an exchange authenticates requests that present its
/// cookie until it expires; where CSRF is required the request must also
/// present the session's CSRF token.
pub proof fn lemma_exchanged_session_authenticates(
    sessions: Seq<SessionRecord>,
    token: Seq<char>,
    csrf: Seq<char>,
    created_at: i64,
    presented_csrf: Option<Seq<char>>,
    require_csrf: bool,
    now: i64,
)
    requires
        distinct_tokens(sessions),
        cookie_safe(token),
    ensures
        ({
            let opened = without_token(sessions, token).push((token, csrf, session_expiry(created_at)));
            authentication_check(opened, Some(session_cookie_header(token)), presented_csrf, require_csrf, now)
                == if now >= session_expiry(created_at) {
                    Err::<(), AuthError>(AuthError::InvalidSession)
                } else if !require_csrf {
                    Ok(())
                } else {
                    match presented_csrf {
                        None => Err(AuthError::MissingCsrf),
                        Some(c) => if c == csrf { Ok(()) } else { Err(AuthError::InvalidCsrf) },
                    }
                }
        }),
{
    let rest = without_token(sessions, token);
    let opened = rest.push((token, csrf, session_expiry(created_at)));
    lemma_without_token(sessions, token, token);
    assert(opened.drop_last() =~= rest);
    assert(distinct_tokens(opened));
    lemma_unexpired(opened, now, token);
    lemma_session_cookie_round_trip(token);
}

/// A wrong launch token is refused and leaves the launch token in place,
/// so the right one still opens a session afterwards; that session
/// authenticates a request that presents its cookie and CSRF token until
/// it expires. (A refused exchange also leaves the sessions unchanged; see
/// `SessionManager::exchange_with`.)
pub proof fn lemma_wrong_launch_token_changes_nothing(
    launch: Seq<char>,
    wrong: Seq<char>,
    sessions: Seq<SessionRecord>,
    token: Seq<char>,
    csrf: Seq<char>,
    created_at: i64,
    now: i64,
)
    requires
        wrong != launch,
        distinct_tokens(sessions),
        cookie_safe(token),
        now < session_expiry(created_at),
    ensures
        exchange_check(Some(launch), wrong) == Err::<(), AuthError>(AuthError::InvalidExchangeToken),
        launch_after_exchange(Some(launch), wrong) == Some(launch),
        exchange_check(launch_after_exchange(Some(launch), wrong), launch) is Ok,
        launch_after_exchange(launch_after_exchange(Some(launch), wrong), launch) is None,
        authentication_check(
            without_token(sessions, token).push((token, csrf, session_expiry(created_at))),
            Some(session_cookie_header(token)),
            Some(csrf),
            true,
            now,
        ) == Ok::<(), AuthError>(()),
{
    lemma_exchanged_session_authenticates(sessions, token, csrf, created_at, Some(csrf), true, now);
}

} // verus!
