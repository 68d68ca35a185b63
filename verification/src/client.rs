//! The agent's side of the API: addresses, headers, signatures of
//! challenges, and when a cached access token is still good.

use vstd::prelude::*;
use vstd::string::*;
use crate::auth::token;
use crate::clock::{self, valid_time};
use crate::crypto::{
    ed25519_public, ed25519_sign, spec_ed25519_key_ok, spec_ed25519_public, spec_ed25519_sign,
    spec_ed25519_verify,
};
use crate::text;

verus! {

/// Writes a character with `char::to_string`: the text of that one character.
#[verifier::external_body]
fn char_text(c: char) -> (r: String)
    ensures
        r@ == seq![c],
{
    c.to_string()
}

// ── Percent-encoding ──

/// Bytes written as they are: ASCII letters, digits, and `-`, `_`, `.`, `~`.
pub open spec fn unreserved(b: u8) -> bool {
    (65 <= b <= 90) || (97 <= b <= 122) || (48 <= b <= 57) || b == 45 || b == 95 || b == 46 || b
        == 126
}

/// An uppercase hex digit of a value below 16.
pub open spec fn hex_upper(n: int) -> char {
    if n < 10 {
        (48 + n) as char
    } else {
        (55 + n) as char
    }
}

/// How a byte is written: itself when unreserved, else `%` and two uppercase hex digits.
pub open spec fn encode_byte(b: u8) -> Seq<char> {
    if unreserved(b) {
        seq![b as char]
    } else {
        seq!['%', hex_upper(b as int / 16), hex_upper(b as int % 16)]
    }
}

/// The percent-encoding of a byte sequence.
pub open spec fn percent_encoded(bs: Seq<u8>) -> Seq<char>
    decreases bs.len(),
{
    if bs.len() == 0 {
        Seq::empty()
    } else {
        percent_encoded(bs.drop_last()) + encode_byte(bs.last())
    }
}

/// The uppercase hex digit of a value below 16.
fn hex_digit_upper(n: u8) -> (r: char)
    requires
        n < 16,
    ensures
        r == hex_upper(n as int),
{
    if n < 10 {
        (48 + n) as char
    } else {
        (55 + n) as char
    }
}

/// Minimal percent-encoding for query parameters: every byte of the UTF-8
/// text but the unreserved ones is written as `%XX`.
pub fn urlencod(s: &str) -> (r: String)
    ensures
        r@ == percent_encoded(s.spec_bytes()),
{
    let bytes = s.as_bytes();
    let mut out = String::new();
    let mut i: usize = 0;
    while i < bytes.len()
        invariant
            i <= bytes@.len(),
            bytes@ == s.spec_bytes(),
            out@ == percent_encoded(bytes@.take(i as int)),
        decreases bytes@.len() - i,
    {
        let b = bytes[i];
        proof {
            assert(bytes@.take(i + 1).drop_last() =~= bytes@.take(i as int));
        }
        if (65 <= b && b <= 90) || (97 <= b && b <= 122) || (48 <= b && b <= 57) || b == 45 || b == 95
            || b == 46 || b == 126 {
            let c = char_text(b as char);
            out.append(c.as_str());
        } else {
            proof {
                reveal_strlit("%");
            }
            out.append("%");
            let hi = char_text(hex_digit_upper(b / 16));
            out.append(hi.as_str());
            let lo = char_text(hex_digit_upper(b % 16));
            out.append(lo.as_str());
            proof {
                assert(out@ =~= percent_encoded(bytes@.take(i as int)) + encode_byte(b));
            }
        }
        i = i + 1;
    }
    proof {
        assert(bytes@.take(bytes@.len() as int) =~= bytes@);
    }
    out
}

/// The value of a hex digit, either case.
pub open spec fn hex_value(c: char) -> Option<int> {
    if '0' <= c && c <= '9' {
        Some(c as int - 48)
    } else if 'A' <= c && c <= 'F' {
        Some(c as int - 55)
    } else if 'a' <= c && c <= 'f' {
        Some(c as int - 87)
    } else {
        None
    }
}

/// Percent-decoding: `%` and two hex digits give the byte they write, any
/// other ASCII character gives its own byte; anything else does not decode.
pub open spec fn percent_decoded(s: Seq<char>) -> Option<Seq<u8>>
    decreases s.len(),
{
    if s.len() == 0 {
        Some(Seq::empty())
    } else if s[0] == '%' {
        if s.len() < 3 {
            None
        } else {
            match (hex_value(s[1]), hex_value(s[2])) {
                (Some(h), Some(l)) => match percent_decoded(s.subrange(3, s.len() as int)) {
                    Some(rest) => Some(seq![(16 * h + l) as u8] + rest),
                    None => None,
                },
                _ => None,
            }
        }
    } else if (s[0] as int) < 128 {
        match percent_decoded(s.subrange(1, s.len() as int)) {
            Some(rest) => Some(seq![s[0] as u8] + rest),
            None => None,
        }
    } else {
        None
    }
}

/// Decoding the writing of one byte, followed by anything, gives that byte
/// before what the rest decodes to.
proof fn decode_one_byte(b: u8, tail: Seq<char>)
    ensures
        percent_decoded(encode_byte(b) + tail) == match percent_decoded(tail) {
            Some(t) => Some(seq![b] + t),
            None => None,
        },
{
    let x = encode_byte(b) + tail;
    if unreserved(b) {
        assert(x[0] == b as char);
        assert(x.subrange(1, x.len() as int) =~= tail);
        assert((b as char) as u8 == b);
    } else {
        let h = b as int / 16;
        let l = b as int % 16;
        assert(x[0] == '%');
        assert(x[1] == hex_upper(h));
        assert(x[2] == hex_upper(l));
        assert(hex_value(hex_upper(h)) == Some(h));
        assert(hex_value(hex_upper(l)) == Some(l));
        assert(x.subrange(3, x.len() as int) =~= tail);
        assert((16 * h + l) as u8 == b);
    }
}

/// Decoding what is encoded, followed by anything, gives the bytes before
/// what the rest decodes to.
proof fn decode_after_encoded(bs: Seq<u8>, tail: Seq<char>)
    ensures
        percent_decoded(percent_encoded(bs) + tail) == match percent_decoded(tail) {
            Some(t) => Some(bs + t),
            None => None,
        },
    decreases bs.len(),
{
    if bs.len() == 0 {
        assert(percent_encoded(bs) + tail =~= tail);
        if let Some(t) = percent_decoded(tail) {
            assert(bs + t =~= t);
        }
    } else {
        let p = bs.drop_last();
        let b = bs.last();
        assert(percent_encoded(bs) + tail =~= percent_encoded(p) + (encode_byte(b) + tail));
        decode_after_encoded(p, encode_byte(b) + tail);
        decode_one_byte(b, tail);
        if let Some(t) = percent_decoded(tail) {
            assert(p + (seq![b] + t) =~= bs + t);
        }
    }
}

/// Percent-decoding what `urlencod` writes gives back the text's bytes.
pub proof fn urlencod_decodes_back(bs: Seq<u8>)
    ensures
        percent_decoded(percent_encoded(bs)) == Some(bs),
{
    decode_after_encoded(bs, Seq::empty());
    assert(percent_encoded(bs) + Seq::<char>::empty() =~= percent_encoded(bs));
    assert(bs + Seq::<u8>::empty() =~= bs);
}

// ── Addresses ──

/// `s` without the slashes at its end.
pub open spec fn without_trailing_slashes(s: Seq<char>) -> Seq<char>
    decreases s.len(),
{
    if s.len() > 0 && s.last() == '/' {
        without_trailing_slashes(s.drop_last())
    } else {
        s
    }
}

/// The server's base address with the slashes at its end removed.
pub fn base_url(s: &str) -> (r: String)
    ensures
        r@ == without_trailing_slashes(s@),
{
    let mut n = s.unicode_len();
    proof {
        assert(s@.subrange(0, n as int) =~= s@);
    }
    while n > 0 && s.get_char(n - 1) == '/'
        invariant
            n <= s@.len(),
            without_trailing_slashes(s@.subrange(0, n as int)) == without_trailing_slashes(s@),
        decreases n,
    {
        proof {
            assert(s@.subrange(0, n as int).drop_last() =~= s@.subrange(0, n - 1));
        }
        n = n - 1;
    }
    proof {
        assert(s@.subrange(0, s@.len() as int) =~= s@);
    }
    String::from_str(s.substring_char(0, n))
}

/// The Authorization header value for an access token.
pub fn auth_header_from_jwt(jwt: &str) -> (r: String)
    ensures
        r@ == "Bearer "@ + jwt@,
{
    text::concat2("Bearer ", jwt)
}

/// A path with the paging parameters of a history.
pub open spec fn paged_path(path: Seq<char>, limit: Option<u32>, before: Option<Seq<char>>) -> Seq<char> {
    match (limit, before) {
        (Some(l), Some(b)) => path + "?limit="@ + text::decimal(l as nat) + "&before="@ + b,
        (Some(l), None) => path + "?limit="@ + text::decimal(l as nat),
        (None, Some(b)) => path + "?before="@ + b,
        (None, None) => path,
    }
}

/// Add the paging parameters of a history to its path.
pub fn history_path(path: &str, limit: Option<u32>, before: Option<&str>) -> (r: String)
    ensures
        r@ == paged_path(path@, limit, text::opt_str(before)),
{
    proof {
        reveal_strlit("?limit=");
        reveal_strlit("&before=");
        reveal_strlit("?before=");
    }
    match (limit, before) {
        (Some(l), Some(b)) => {
            let mut s = text::concat2(path, "?limit=");
            s.append(text::decimal_string(l as usize).as_str());
            s.append("&before=");
            s.append(b);
            s
        },
        (Some(l), None) => {
            let mut s = text::concat2(path, "?limit=");
            s.append(text::decimal_string(l as usize).as_str());
            s
        },
        (None, Some(b)) => text::concat3(path, "?before=", b),
        (None, None) => String::from_str(path),
    }
}

/// Most messages that one history request of the command line asks for.
pub const CLI_HISTORY_MAX: u32 = 20;

/// The page size that the command line asks for: what was given, at most
/// twenty.
pub fn capped_limit(limit: u32) -> (r: u32)
    ensures
        r == (if limit < CLI_HISTORY_MAX { limit } else { CLI_HISTORY_MAX }),
{
    if limit < CLI_HISTORY_MAX {
        limit
    } else {
        CLI_HISTORY_MAX
    }
}

/// The error that a refused request reports: "HTTP", the status code, a
/// dash, then the `error` field of the reply when it has one, else the whole
/// reply body.
pub open spec fn failure_text(status: u16, error: Option<Seq<char>>, body: Seq<char>) -> Seq<char> {
    "HTTP "@ + text::decimal(status as nat) + " \u{2014} "@ + match error {
        Some(e) => e,
        None => body,
    }
}

/// The error that a refused request reports.
pub fn failure_message(status: u16, error: Option<&str>, body: &str) -> (r: String)
    ensures
        r@ == failure_text(status, text::opt_str(error), body@),
{
    let mut s = text::concat3("HTTP ", text::decimal_string(status as usize).as_str(), " \u{2014} ");
    match error {
        Some(e) => s.append(e),
        None => s.append(body),
    }
    s
}

/// `s` with every occurrence of `from` replaced by `to`, left to right, as
/// `str::replace` does for a pattern that is not empty.
pub open spec fn replaced(s: Seq<char>, from: Seq<char>, to: Seq<char>) -> Seq<char>
    decreases s.len(),
{
    if s.len() == 0 {
        Seq::empty()
    } else if from.len() > 0 && from.len() <= s.len() && s.subrange(0, from.len() as int) == from {
        to + replaced(s.subrange(from.len() as int, s.len() as int), from, to)
    } else {
        seq![s[0]] + replaced(s.subrange(1, s.len() as int), from, to)
    }
}

/// Replace every occurrence of `from` in `s` by `to`.
pub fn replace_all(s: &str, from: &str, to: &str) -> (r: String)
    requires
        from@.len() > 0,
    ensures
        r@ == replaced(s@, from@, to@),
{
    let n = s.unicode_len();
    let m = from.unicode_len();
    let mut out = String::new();
    let mut i: usize = 0;
    proof {
        assert(s@.subrange(0, n as int) =~= s@);
        assert(out@ + replaced(s@, from@, to@) =~= replaced(s@, from@, to@));
    }
    while i < n
        invariant
            n == s@.len(),
            m == from@.len(),
            m > 0,
            i <= n,
            out@ + replaced(s@.subrange(i as int, n as int), from@, to@) == replaced(s@, from@, to@),
        decreases n - i,
    {
        let ghost rest = s@.subrange(i as int, n as int);
        if m <= n - i && text::text_eq(s.substring_char(i, i + m), from) {
            proof {
                assert(rest.subrange(0, m as int) =~= s@.subrange(i as int, i + m));
                assert(rest.subrange(m as int, rest.len() as int) =~= s@.subrange(i + m, n as int));
                assert(out@ + to@ + replaced(s@.subrange(i + m, n as int), from@, to@) =~= out@ + (to@
                    + replaced(s@.subrange(i + m, n as int), from@, to@)));
            }
            out.append(to);
            i = i + m;
        } else {
            proof {
                if m <= n - i {
                    assert(rest.subrange(0, m as int) =~= s@.subrange(i as int, i + m));
                }
                assert(rest.subrange(1, rest.len() as int) =~= s@.subrange(i + 1, n as int));
                assert(rest[0] == s@[i as int]);
            }
            let c = char_text(s.get_char(i));
            proof {
                assert(out@ + c@ + replaced(s@.subrange(i + 1, n as int), from@, to@) =~= out@ + (seq![
                    s@[i as int],
                ] + replaced(s@.subrange(i + 1, n as int), from@, to@)));
            }
            out.append(c.as_str());
            i = i + 1;
        }
    }
    proof {
        assert(out@ + replaced(s@.subrange(n as int, n as int), from@, to@) =~= out@);
    }
    out
}

/// The WebSocket address of the server for an access token.
pub open spec fn ws_address(base: Seq<char>, jwt: Seq<u8>) -> Seq<char> {
    replaced(replaced(base, "https://"@, "wss://"@), "http://"@, "ws://"@) + "/ws?token="@
        + percent_encoded(jwt)
}

/// The WebSocket address of the server, with the access token in the query.
pub fn ws_url(base: &str, jwt: &str) -> (r: String)
    ensures
        r@ == ws_address(base@, jwt.spec_bytes()),
{
    proof {
        reveal_strlit("https://");
        reveal_strlit("http://");
        reveal_strlit("/ws?token=");
    }
    let secure = replace_all(base, "https://", "wss://");
    let plain = replace_all(secure.as_str(), "http://", "ws://");
    let token = urlencod(jwt);
    text::concat3(plain.as_str(), "/ws?token=", token.as_str())
}

// ── Access tokens ──

/// Seconds before its expiry at which a cached token is no longer used.
pub const TOKEN_MARGIN_SECS: i64 = 30;

/// Whether a cached token that expires at `expires_at` may still be used at `now`.
pub fn jwt_fresh(expires_at: i64, now: i64) -> (r: bool)
    requires
        valid_time(expires_at),
    ensures
        r == (expires_at - TOKEN_MARGIN_SECS * clock::MICROS_PER_SEC > now),
{
    expires_at - TOKEN_MARGIN_SECS * clock::MICROS_PER_SEC > now
}

/// Minutes a token is assumed to live when the server names no expiry.
pub const ASSUMED_TOKEN_MINUTES: i64 = 9;

/// When a freshly issued token expires: the instant the server named, or
/// nine minutes after `now` when it named none that parses.
pub fn token_expiry(expires_at: Option<&str>, now: i64) -> (r: i64)
    requires
        valid_time(now),
        now + ASSUMED_TOKEN_MINUTES * 60 * clock::MICROS_PER_SEC <= clock::TIME_MAX_MICROS,
    ensures
        r == match clock::spec_parse_rfc3339(
            match expires_at {
                Some(t) => t@,
                None => ""@,
            },
        ) {
            Some(t) => t as int,
            None => now + ASSUMED_TOKEN_MINUTES * 60 * clock::MICROS_PER_SEC,
        },
        valid_time(r),
{
    proof {
        reveal_strlit("");
    }
    let t = match expires_at {
        Some(t) => t,
        None => "",
    };
    match clock::parse_rfc3339(t) {
        Some(v) => v,
        None => now + ASSUMED_TOKEN_MINUTES * 60 * clock::MICROS_PER_SEC,
    }
}

// ── Keys and signatures ──

/// The public key of a 32-byte secret key, in standard base64, as sent at
/// activation.
pub fn public_key_base64(secret: &[u8]) -> (r: String)
    requires
        secret@.len() == 32,
    ensures
        r@ == token::spec_base64(spec_ed25519_public(secret@)),
        token::spec_base64_decode(r@) == Some(spec_ed25519_public(secret@)),
        spec_ed25519_public(secret@).len() == 32,
        spec_ed25519_key_ok(spec_ed25519_public(secret@)),
{
    let pk = ed25519_public(secret);
    token::base64_encode(pk.as_slice())
}

/// The signature of a challenge nonce under a 32-byte secret key, in
/// standard base64, as sent for verification.
pub fn sign_nonce(secret: &[u8], nonce: &str) -> (r: String)
    requires
        secret@.len() == 32,
    ensures
        r@ == token::spec_base64(spec_ed25519_sign(secret@, nonce.spec_bytes())),
        token::spec_base64_decode(r@) == Some(spec_ed25519_sign(secret@, nonce.spec_bytes())),
        spec_ed25519_sign(secret@, nonce.spec_bytes()).len() == 64,
        spec_ed25519_verify(
            spec_ed25519_public(secret@),
            nonce.spec_bytes(),
            spec_ed25519_sign(secret@, nonce.spec_bytes()),
        ),
{
    let sig = ed25519_sign(secret, nonce.as_bytes());
    token::base64_encode(sig.as_slice())
}

} // verus!
