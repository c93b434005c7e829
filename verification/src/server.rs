//! Decisions of the HTTP server: who may call the API, which status an
//! error answer gets, the generated bearer token, the port, and the public
//! URL that the tunnel process announces.
use vstd::prelude::*;
use crate::text::{
    append_chars, append_str, chars_of, contains, contains_chars, find_chars, find_from,
    is_ws, is_ws_char, opt_text, push_char, same_chars, slice_chars,
};

verus! {

/// The scheme word that precedes a bearer token.
pub const BEARER_PREFIX: &'static str = "Bearer ";

/// AppleScript's words when the object asked for does not exist.
pub const CANT_GET: &'static str = "Can't get";

/// AppleScript's words when an object is asked for what it does not have.
pub const NOT_UNDERSTOOD: &'static str = "doesn't understand";

/// The start of every generated token.
pub const TOKEN_PREFIX: &'static str = "thingsapi_";

/// The lowercase hexadecimal digits, by value.
pub const HEX_DIGITS: &'static str = "0123456789abcdef";

/// Where a public URL starts in the tunnel's log.
pub const HTTPS_SCHEME: &'static str = "https://";

/// What a quick-tunnel URL holds.
pub const TUNNEL_DOMAIN: &'static str = ".trycloudflare.com";

/// The port used when none is given.
pub const DEFAULT_PORT: u16 = 3333;

pub const NOT_FOUND: u16 = 404;

pub const INTERNAL_SERVER_ERROR: u16 = 500;

// ---------------------------------------------------------------------------
// Definitions
// ---------------------------------------------------------------------------

/// A request is let through exactly when its `Authorization` header reads
/// `Bearer ` followed by the token.
pub open spec fn authorized(header: Option<Seq<char>>, token: Seq<char>) -> bool {
    header == Some(BEARER_PREFIX@ + token)
}

/// The status of an error answer: not found when AppleScript could not get
/// the object or did not understand the request for it, else an internal error.
pub open spec fn error_status_code(message: Seq<char>) -> u16 {
    if contains(message, CANT_GET@) || contains(message, NOT_UNDERSTOOD@) {
        NOT_FOUND
    } else {
        INTERNAL_SERVER_ERROR
    }
}

/// Two lowercase hexadecimal digits for a byte (`{:02x}`).
pub open spec fn byte_hex(b: u8) -> Seq<char> {
    seq![HEX_DIGITS@[(b / 16) as int], HEX_DIGITS@[(b % 16) as int]]
}

/// Bytes written as lowercase hexadecimal, two digits each.
pub open spec fn hex_text(bytes: Seq<u8>) -> Seq<char>
    decreases bytes.len(),
{
    if bytes.len() == 0 {
        Seq::<char>::empty()
    } else {
        hex_text(bytes.drop_last()) + byte_hex(bytes.last())
    }
}

/// The token made from random bytes.
pub open spec fn token_text(bytes: Seq<u8>) -> Seq<char> {
    TOKEN_PREFIX@ + hex_text(bytes)
}

/// The characters of `s` up to its first whitespace.
pub open spec fn first_word(s: Seq<char>) -> Seq<char>
    decreases s.len(),
{
    if s.len() == 0 || is_ws(s[0]) {
        Seq::<char>::empty()
    } else {
        seq![s[0]] + first_word(s.drop_first())
    }
}

/// The public URL that a log line of the tunnel announces: the word that
/// starts at the first `https://` of the line, when it names a quick-tunnel
/// host.
pub open spec fn tunnel_url(line: Seq<char>) -> Option<Seq<char>> {
    match find_from(line, HTTPS_SCHEME@, 0) {
        Some(i) => {
            let w = first_word(line.skip(i));
            if contains(w, TUNNEL_DOMAIN@) {
                Some(w)
            } else {
                None
            }
        },
        None => None,
    }
}

/// The value of a decimal digit.
pub open spec fn digit_value(c: char) -> int {
    c as int - '0' as int
}

pub open spec fn is_digit(c: char) -> bool {
    '0' <= c && c <= '9'
}

/// The value of a string of decimal digits.
pub open spec fn decimal_value(s: Seq<char>) -> int
    decreases s.len(),
{
    if s.len() == 0 {
        0
    } else {
        decimal_value(s.drop_last()) * 10 + digit_value(s.last())
    }
}

/// The text after an optional leading `+`.
pub open spec fn unsigned_digits(s: Seq<char>) -> Seq<char> {
    if s.len() > 0 && s[0] == '+' {
        s.drop_first()
    } else {
        s
    }
}

/// Every character of `d` is a decimal digit.
pub open spec fn all_digits(d: Seq<char>) -> bool {
    forall|i: int| 0 <= i < d.len() ==> is_digit(#[trigger] d[i])
}

/// A port number read as `u16::from_str` reads it: an optional `+`, then
/// one or more decimal digits whose value fits in 16 bits.
pub open spec fn port_value(s: Seq<char>) -> Option<u16> {
    let d = unsigned_digits(s);
    if d.len() > 0 && all_digits(d) && decimal_value(d) <= 65535 {
        Some(decimal_value(d) as u16)
    } else {
        None
    }
}

/// The port: the one given on the command line, else the one from the
/// environment when it reads as a port number, else the default.
pub open spec fn chosen_port(arg: Option<u16>, env_value: Option<Seq<char>>) -> u16 {
    match arg {
        Some(p) => p,
        None => match env_value {
            Some(v) => match port_value(v) {
                Some(p) => p,
                None => DEFAULT_PORT,
            },
            None => DEFAULT_PORT,
        },
    }
}

// ---------------------------------------------------------------------------
// Lemmas
// ---------------------------------------------------------------------------

proof fn lemma_decimal_grows(s: Seq<char>, k: int)
    requires
        0 <= k <= s.len(),
        forall|i: int| 0 <= i < s.len() ==> is_digit(#[trigger] s[i]),
    ensures
        decimal_value(s) >= decimal_value(s.take(k)),
        decimal_value(s) >= 0,
    decreases s.len(),
{
    if s.len() > 0 {
        if k == s.len() {
            assert(s.take(k) =~= s);
            lemma_decimal_grows(s.drop_last(), 0);
        } else {
            assert(s.drop_last().take(k) =~= s.take(k));
            lemma_decimal_grows(s.drop_last(), k);
        }
    } else {
        assert(s.take(k) =~= s);
    }
}

proof fn lemma_first_word_stop(s: Seq<char>, k: int)
    requires
        0 <= k <= s.len(),
        forall|i: int| 0 <= i < k ==> !is_ws(#[trigger] s[i]),
        k == s.len() || is_ws(s[k]),
    ensures
        first_word(s) == s.take(k),
    decreases k,
{
    if k > 0 {
        lemma_first_word_stop(s.drop_first(), k - 1);
        assert(first_word(s) =~= s.take(k));
    } else {
        assert(s.take(0) =~= Seq::<char>::empty());
    }
}

proof fn lemma_hex_text(bytes: Seq<u8>)
    ensures
        hex_text(bytes).len() == 2 * bytes.len(),
        forall|i: int| 0 <= i < hex_text(bytes).len() ==> HEX_DIGITS@.contains(#[trigger] hex_text(bytes)[i]),
    decreases bytes.len(),
{
    reveal_strlit("0123456789abcdef");
    if bytes.len() > 0 {
        let init = bytes.drop_last();
        lemma_hex_text(init);
        let b = bytes.last();
        let h = hex_text(bytes);
        let hi = HEX_DIGITS@[(b / 16) as int];
        let lo = HEX_DIGITS@[(b % 16) as int];
        assert(HEX_DIGITS@.contains(hi));
        assert(HEX_DIGITS@.contains(lo));
        assert forall|i: int| 0 <= i < h.len() implies HEX_DIGITS@.contains(#[trigger] h[i]) by {
            if i < hex_text(init).len() {
                assert(h[i] == hex_text(init)[i]);
            } else if i == hex_text(init).len() {
                assert(h[i] == hi);
            } else {
                assert(h[i] == lo);
            }
        }
    }
}

/// A generated token is `thingsapi_` followed by 48 lowercase hexadecimal
/// digits, two for each of its 24 bytes.
pub proof fn law_token_shape(bytes: Seq<u8>)
    requires
        bytes.len() == 24,
    ensures
        token_text(bytes).len() == 58,
        token_text(bytes).take(10) == TOKEN_PREFIX@,
        forall|i: int| 10 <= i < 58 ==> HEX_DIGITS@.contains(#[trigger] token_text(bytes)[i]),
{
    reveal_strlit("thingsapi_");
    lemma_hex_text(bytes);
    let t = token_text(bytes);
    assert(t.take(10) =~= TOKEN_PREFIX@);
    assert forall|i: int| 10 <= i < 58 implies HEX_DIGITS@.contains(#[trigger] t[i]) by {
        assert(t[i] == hex_text(bytes)[i - 10]);
    }
}

// ---------------------------------------------------------------------------
// Executable functions
// ---------------------------------------------------------------------------

/// Whether a request's `Authorization` header carries the token.
pub fn is_authorized(header: Option<&str>, token: &str) -> (r: bool)
    ensures
        r == authorized(opt_text(header), token@),
{
    match header {
        None => false,
        Some(h) => {
            let mut expected = String::new();
            append_str(&mut expected, BEARER_PREFIX);
            append_str(&mut expected, token);
            let hv = chars_of(h);
            let ev = chars_of(expected.as_str());
            same_chars(&hv, &ev)
        },
    }
}

/// The HTTP status of an error answer for a task that was asked for.
pub fn error_status(message: &str) -> (code: u16)
    ensures
        code == error_status_code(message@),
{
    let m = chars_of(message);
    let a = chars_of(CANT_GET);
    let b = chars_of(NOT_UNDERSTOOD);
    if contains_chars(&m, &a) || contains_chars(&m, &b) {
        NOT_FOUND
    } else {
        INTERNAL_SERVER_ERROR
    }
}

/// The token made from the given bytes.
pub fn token_from_bytes(bytes: &[u8]) -> (s: String)
    ensures
        s@ == token_text(bytes@),
{
    let digits = chars_of(HEX_DIGITS);
    proof {
        reveal_strlit("0123456789abcdef");
    }
    assert(digits@.len() == 16);
    let mut s = String::new();
    append_str(&mut s, TOKEN_PREFIX);
    let n = bytes.len();
    assert(bytes@.take(0) =~= Seq::<u8>::empty());
    for i in 0..n
        invariant
            n == bytes@.len(),
            digits@ == HEX_DIGITS@,
            digits@.len() == 16,
            s@ == TOKEN_PREFIX@ + hex_text(bytes@.take(i as int)),
    {
        let b = bytes[i];
        push_char(&mut s, digits[(b / 16) as usize]);
        push_char(&mut s, digits[(b % 16) as usize]);
        assert(bytes@.take(i + 1).drop_last() =~= bytes@.take(i as int));
        assert(s@ =~= TOKEN_PREFIX@ + hex_text(bytes@.take(i + 1)));
    }
    assert(bytes@.take(n as int) =~= bytes@);
    s
}

/// Twenty-four random bytes, by `rand::rng()` and `Rng::random::<[u8; 24]>()`
/// of `rand`: an array of 24 bytes, copied into a vector. Which bytes the
/// thread-local generator gives is left unsaid: it is chance.
#[verifier::external_body]
fn random_token_bytes() -> (b: Vec<u8>)
    ensures
        b@.len() == 24,
{
    rand::Rng::random::<[u8; 24]>(&mut rand::rng()).to_vec()
}

/// A fresh bearer token: `thingsapi_` and 24 random bytes in hexadecimal.
pub fn generate_token() -> (s: String)
    ensures
        exists|b: Seq<u8>| b.len() == 24 && s@ == token_text(b),
{
    let bytes = random_token_bytes();
    token_from_bytes(bytes.as_slice())
}

/// The public URL that a log line of the tunnel announces, if any.
pub fn tunnel_url_in_line(line: &str) -> (r: Option<String>)
    ensures
        opt_text_of(r) == tunnel_url(line@),
{
    let v = chars_of(line);
    let scheme = chars_of(HTTPS_SCHEME);
    match find_chars(&v, &scheme) {
        None => None,
        Some(start) => {
            let n = v.len();
            let mut end = start;
            proof {
                reveal_strlit("https://");
                crate::text::lemma_find_from(v@, scheme@, 0);
                assert(v@.subrange(start as int, start + 8) == scheme@);
                assert(v@[start as int] == 'h');
            }
            while end < n && !is_ws_char(v[end])
                invariant
                    start <= end <= n,
                    n == v@.len(),
                    forall|i: int| start <= i < end ==> !is_ws(#[trigger] v@[i]),
                decreases n - end,
            {
                end = end + 1;
            }
            let word = slice_chars(&v, start, end);
            proof {
                let t = v@.skip(start as int);
                assert forall|i: int| 0 <= i < end - start implies !is_ws(#[trigger] t[i]) by {
                    assert(t[i] == v@[start + i]);
                }
                lemma_first_word_stop(t, end - start);
                assert(t.take(end - start) =~= word@);
            }
            let domain = chars_of(TUNNEL_DOMAIN);
            if contains_chars(&word, &domain) {
                let mut s = String::new();
                append_chars(&mut s, &word);
                Some(s)
            } else {
                None
            }
        },
    }
}

/// The view of an optional string.
pub open spec fn opt_text_of(o: Option<String>) -> Option<Seq<char>> {
    match o {
        Some(s) => Some(s@),
        None => None,
    }
}

/// A port number read from text, as `u16::from_str` reads it.
pub fn parse_port(s: &str) -> (r: Option<u16>)
    ensures
        r == port_value(s@),
{
    let v = chars_of(s);
    let n = v.len();
    let mut i: usize = 0;
    if n > 0 && v[0] == '+' {
        i = 1;
    }
    let ghost d = if n > 0 && v@[0] == '+' {
        v@.drop_first()
    } else {
        v@
    };
    assert(d =~= v@.skip(i as int));
    if i == n {
        return None;
    }
    let start = i;
    let mut acc: u32 = 0;
    while i < n
        invariant
            start <= i <= n,
            n == v@.len(),
            d == v@.skip(start as int),
            d == unsigned_digits(v@),
            v@ == s@,
            d.len() > 0,
            forall|k: int| 0 <= k < i - start ==> is_digit(#[trigger] d[k]),
            acc as int == decimal_value(d.take(i - start)),
            acc <= 65535,
        decreases n - i,
    {
        let c = v[i];
        assert(d[i - start] == c);
        if !('0' <= c && c <= '9') {
            assert(!is_digit(d[i - start]));
            assert(port_value(v@) is None);
            return None;
        }
        let dv = (c as u32) - ('0' as u32);
        assert(d.take(i + 1 - start).drop_last() =~= d.take(i - start));
        let next = acc * 10 + dv;
        if next > 65535 {
            proof {
                assert(d.take(i + 1 - start).last() == c);
                assert(decimal_value(d.take(i + 1 - start)) == next);
                if all_digits(d) {
                    lemma_decimal_grows(d, i + 1 - start);
                }
                assert(port_value(v@) is None);
            }
            return None;
        }
        acc = next;
        i = i + 1;
    }
    assert(d.take(n - start) =~= d);
    Some(acc as u16)
}

/// The port to listen on.
pub fn resolve_port(arg: Option<u16>, env_value: Option<&str>) -> (p: u16)
    ensures
        p == chosen_port(arg, opt_text(env_value)),
{
    match arg {
        Some(p) => p,
        None => match env_value {
            Some(v) => match parse_port(v) {
                Some(p) => p,
                None => DEFAULT_PORT,
            },
            None => DEFAULT_PORT,
        },
    }
}

} // verus!
