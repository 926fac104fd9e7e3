//! Google OAuth desktop login over a loopback redirect: the authorization URL
//! that is opened in the browser, the parsing of the callback request line,
//! the CSRF state check and the reply sent to the browser.
//!
//! The socket, the browser and the token exchange stay with the caller; this
//! module computes what is sent and decides what is accepted.
use vstd::prelude::*;
use base64::Engine;
use rand::TryRngCore;
use vstd::utf8::{decode_utf8, encode_utf8, encode_utf8_decode_utf8, encode_utf8_valid_utf8,
    is_ascii_chars, is_ascii_chars_encode_utf8, valid_utf8};
use crate::text::{chars_eq, chars_of, decimal, find_char, find_char_from, first_char_at,
    is_white_space, lemma_find_char_first, push_char, push_decimal, split_chars, split_on,
    split_once, string_from_chars, sub_chars, views_of, white_space};

verus! {

/// Google's OAuth 2.0 authorization endpoint.
pub const AUTH_ENDPOINT: &'static str = "https://accounts.google.com/o/oauth2/v2/auth";

/// The scopes the application asks for, space separated.
pub const SCOPES: &'static str = "openid email https://www.googleapis.com/auth/gmail.modify https://www.googleapis.com/auth/gmail.settings.basic";

/// Why a login did not complete.
#[derive(Debug)]
pub enum AuthError {
    /// The local platform failed (socket, browser), with its message.
    Platform(String),
    /// The user did not finish the login in time.
    Cancelled,
    /// The OAuth exchange was refused or malformed, with its message.
    OAuth(String),
}

// ---------------------------------------------------------------------------
// Percent-encoding of query values
// ---------------------------------------------------------------------------

/// A byte that a query value may carry unescaped: ASCII letters and digits
/// and `- _ . ~`.
pub open spec fn is_unreserved(b: u8) -> bool {
    ||| 0x30 <= b <= 0x39
    ||| 0x41 <= b <= 0x5A
    ||| 0x61 <= b <= 0x7A
    ||| b == 0x2D
    ||| b == 0x5F
    ||| b == 0x2E
    ||| b == 0x7E
}

/// The upper-case hexadecimal digit of `n < 16`.
pub open spec fn hex_upper(n: int) -> char {
    if n < 10 {
        (48 + n) as char
    } else {
        (55 + n) as char
    }
}

/// One byte of a query value: itself when unreserved, else `%XX` in
/// upper-case hexadecimal.
pub open spec fn encode_byte(b: u8) -> Seq<char> {
    if is_unreserved(b) {
        seq![b as char]
    } else {
        seq!['%', hex_upper(b as int / 16), hex_upper(b as int % 16)]
    }
}

/// The percent-encoding of a byte sequence, byte by byte.
pub open spec fn percent_encode(bytes: Seq<u8>) -> Seq<char>
    decreases bytes.len(),
{
    if bytes.len() == 0 {
        Seq::<char>::empty()
    } else {
        percent_encode(bytes.drop_last()) + encode_byte(bytes.last())
    }
}

/// `key=value` with the UTF-8 bytes of `value` percent-encoded.
pub open spec fn query_pair(key: Seq<char>, value: Seq<char>) -> Seq<char> {
    key + seq!['='] + percent_encode(encode_utf8(value))
}

/// The authorization URL for one login attempt.
pub open spec fn auth_url(
    client_id: Seq<char>,
    redirect_uri: Seq<char>,
    challenge: Seq<char>,
    state: Seq<char>,
) -> Seq<char> {
    AUTH_ENDPOINT@ + seq!['?'] + query_pair("client_id"@, client_id) + seq!['&']
        + query_pair("redirect_uri"@, redirect_uri) + "&response_type=code"@ + seq!['&']
        + query_pair("scope"@, SCOPES@) + seq!['&'] + query_pair("code_challenge"@, challenge)
        + "&code_challenge_method=S256"@ + seq!['&'] + query_pair("state"@, state)
        + "&access_type=offline&prompt=consent"@
}

/// The upper-case hexadecimal digit of `n < 16`.
fn hex_digit(n: u8) -> (c: char)
    requires
        n < 16,
    ensures
        c == hex_upper(n as int),
{
    if n < 10 {
        (n + 48) as char
    } else {
        (n + 55) as char
    }
}

/// Appends `key=value` to `out`, percent-encoding every byte of `value`
/// that is not an ASCII letter, digit, `-`, `_`, `.` or `~`.
pub fn push_query(out: &mut String, key: &str, value: &str)
    ensures
        final(out)@ == old(out)@ + query_pair(key@, value@),
{
    out.append(key);
    push_char(out, '=');
    let bytes = value.as_bytes();
    let ghost start = out@;
    assert(bytes@.take(0) =~= Seq::<u8>::empty());
    assert(start + percent_encode(bytes@.take(0)) =~= start);
    for i in 0..bytes.len()
        invariant
            bytes@ == encode_utf8(value@),
            out@ == start + percent_encode(bytes@.take(i as int)),
    {
        let b = bytes[i];
        assert(bytes@.take(i + 1).drop_last() =~= bytes@.take(i as int));
        assert(bytes@.take(i + 1).last() == b);
        if (0x30u8 <= b && b <= 0x39u8) || (0x41u8 <= b && b <= 0x5Au8) || (0x61u8 <= b && b <= 0x7Au8)
            || b == 0x2Du8 || b == 0x5Fu8 || b == 0x2Eu8 || b == 0x7Eu8 {
            push_char(out, b as char);
        } else {
            push_char(out, '%');
            push_char(out, hex_digit(b / 16));
            push_char(out, hex_digit(b % 16));
        }
        assert(out@ =~= start + percent_encode(bytes@.take(i + 1)));
    }
    assert(bytes@.take(bytes@.len() as int) =~= bytes@);
}

/// The URL that starts a login: Google's authorization endpoint with the
/// client, the loopback redirect, the scopes, the PKCE challenge (S256) and
/// the CSRF state, asking for offline access with a consent prompt.
pub fn build_auth_url(client_id: &str, redirect_uri: &str, challenge: &str, state: &str) -> (url:
    String)
    ensures
        url@ == auth_url(client_id@, redirect_uri@, challenge@, state@),
{
    let mut url = AUTH_ENDPOINT.to_owned();
    push_char(&mut url, '?');
    push_query(&mut url, "client_id", client_id);
    push_char(&mut url, '&');
    push_query(&mut url, "redirect_uri", redirect_uri);
    url.append("&response_type=code");
    push_char(&mut url, '&');
    push_query(&mut url, "scope", SCOPES);
    push_char(&mut url, '&');
    push_query(&mut url, "code_challenge", challenge);
    url.append("&code_challenge_method=S256");
    push_char(&mut url, '&');
    push_query(&mut url, "state", state);
    url.append("&access_type=offline&prompt=consent");
    assert(url@ =~= auth_url(client_id@, redirect_uri@, challenge@, state@));
    url
}

// ---------------------------------------------------------------------------
// Percent-decoding of query values
// ---------------------------------------------------------------------------

/// The value of an ASCII hexadecimal digit (either case), as
/// `char::to_digit(16)` gives it for the byte read as a character.
pub open spec fn hex_value(b: u8) -> Option<u8> {
    if 0x30 <= b <= 0x39 {
        Some((b - 0x30) as u8)
    } else if 0x41 <= b <= 0x46 {
        Some((b - 0x37) as u8)
    } else if 0x61 <= b <= 0x66 {
        Some((b - 0x57) as u8)
    } else {
        None
    }
}

/// The bytes of a form-encoded value: `%XX` with two hexadecimal digits is
/// the byte `XX`, `+` is a space, and every other byte (a `%` without two
/// hexadecimal digits after it included) stands for itself.
pub open spec fn percent_decode(b: Seq<u8>) -> Seq<u8>
    decreases b.len(),
{
    if b.len() == 0 {
        Seq::<u8>::empty()
    } else if b[0] == 0x25 && b.len() > 2 && hex_value(b[1]) is Some && hex_value(b[2]) is Some {
        seq![(hex_value(b[1])->0 * 16 + hex_value(b[2])->0) as u8] + percent_decode(b.skip(3))
    } else if b[0] == 0x2B {
        seq![0x20u8] + percent_decode(b.skip(1))
    } else {
        seq![b[0]] + percent_decode(b.skip(1))
    }
}

/// The characters that `String::from_utf8_lossy` makes of `bytes`: the
/// UTF-8 decoding, with U+FFFD in place of each invalid sequence.
pub uninterp spec fn lossy_utf8(bytes: Seq<u8>) -> Seq<char>;

/// The decoded text of a form-encoded query value.
pub open spec fn url_decoded(value: Seq<char>) -> Seq<char> {
    lossy_utf8(percent_decode(encode_utf8(value)))
}

/// The lower-case hexadecimal digit of `n` (below 16), as a byte.
pub open spec fn lower_hex_digit(n: u8) -> u8 {
    if n < 10 {
        (0x30 + n) as u8
    } else {
        (0x61 + n - 10) as u8
    }
}

/// The upper-case hexadecimal digit of `n` (below 16), as a byte.
pub open spec fn upper_hex_digit(n: u8) -> u8 {
    if n < 10 {
        (0x30 + n) as u8
    } else {
        (0x41 + n - 10) as u8
    }
}

/// Every byte escaped as `%` and its two hexadecimal digits decodes back to
/// itself, whether the digits are written in lower or in upper case.
pub proof fn escapes_decode_to_their_byte(b: u8)
    ensures
        percent_decode(seq![0x25u8, lower_hex_digit(b / 16), lower_hex_digit(b % 16)]) == seq![b],
        percent_decode(seq![0x25u8, upper_hex_digit(b / 16), upper_hex_digit(b % 16)]) == seq![b],
{
    let lo = seq![0x25u8, lower_hex_digit(b / 16), lower_hex_digit(b % 16)];
    let up = seq![0x25u8, upper_hex_digit(b / 16), upper_hex_digit(b % 16)];
    assert(hex_value(lower_hex_digit(b / 16)) == Some(b / 16));
    assert(hex_value(lower_hex_digit(b % 16)) == Some(b % 16));
    assert(hex_value(upper_hex_digit(b / 16)) == Some(b / 16));
    assert(hex_value(upper_hex_digit(b % 16)) == Some(b % 16));
    assert((b / 16) * 16 + b % 16 == b) by (nonlinear_arith);
    assert(percent_decode(Seq::<u8>::empty()) == Seq::<u8>::empty());
    assert(lo.skip(3) =~= Seq::<u8>::empty());
    assert(up.skip(3) =~= Seq::<u8>::empty());
    assert(lo.len() == 3 && lo[0] == 0x25 && lo[1] == lower_hex_digit(b / 16) && lo[2]
        == lower_hex_digit(b % 16));
    assert(up.len() == 3 && up[0] == 0x25 && up[1] == upper_hex_digit(b / 16) && up[2]
        == upper_hex_digit(b % 16));
    assert(percent_decode(lo) == seq![b] + percent_decode(lo.skip(3)));
    assert(percent_decode(lo) =~= seq![b]);
    assert(percent_decode(up) == seq![b] + percent_decode(up.skip(3)));
    assert(percent_decode(up) =~= seq![b]);
}

/// Decodes bytes as UTF-8, replacing invalid sequences by U+FFFD, through
/// `String::from_utf8_lossy`. Its documentation states that valid UTF-8 is
/// decoded unchanged; what replaces invalid input is left to the name
/// `lossy_utf8`.
#[verifier::external_body]
fn utf8_lossy(bytes: &[u8]) -> (res: String)
    ensures
        res@ == lossy_utf8(bytes@),
        valid_utf8(bytes@) ==> res@ == decode_utf8(bytes@),
{
    String::from_utf8_lossy(bytes).into_owned()
}

/// The value of a hexadecimal digit byte.
fn hex_digit_value(b: u8) -> (res: Option<u8>)
    ensures
        res == hex_value(b),
{
    if 0x30u8 <= b && b <= 0x39u8 {
        Some(b - 0x30u8)
    } else if 0x41u8 <= b && b <= 0x46u8 {
        Some(b - 0x41u8 + 10)
    } else if 0x61u8 <= b && b <= 0x66u8 {
        Some(b - 0x61u8 + 10)
    } else {
        None
    }
}

/// The bytes of a form-encoded value (see `percent_decode`).
fn percent_decode_bytes(bytes: &[u8]) -> (out: Vec<u8>)
    ensures
        out@ == percent_decode(bytes@),
{
    let mut out: Vec<u8> = Vec::new();
    let mut i: usize = 0;
    assert(bytes@.skip(0) =~= bytes@);
    while i < bytes.len()
        invariant
            i <= bytes.len(),
            out@ + percent_decode(bytes@.skip(i as int)) == percent_decode(bytes@),
        decreases bytes.len() - i,
    {
        let ghost rest = bytes@.skip(i as int);
        assert(rest[0] == bytes@[i as int]);
        let b = bytes[i];
        let mut decoded = false;
        if b == 0x25u8 && bytes.len() - i > 2 {
            assert(rest[1] == bytes@[i + 1]);
            assert(rest[2] == bytes@[i + 2]);
            let hi = hex_digit_value(bytes[i + 1]);
            let lo = hex_digit_value(bytes[i + 2]);
            match (hi, lo) {
                (Some(h), Some(l)) => {
                    out.push(h * 16 + l);
                    assert(rest.skip(3) =~= bytes@.skip(i + 3));
                    i = i + 3;
                    decoded = true;
                },
                _ => {},
            }
        }
        if !decoded {
            assert(rest.skip(1) =~= bytes@.skip(i + 1));
            if b == 0x2Bu8 {
                out.push(0x20u8);
            } else {
                out.push(b);
            }
            i = i + 1;
        }
    }
    assert(bytes@.skip(i as int) =~= Seq::<u8>::empty());
    assert(out@ + Seq::<u8>::empty() =~= out@);
    out
}

/// Decodes a form-encoded query value: `%XX` escapes and `+` for space, then
/// the bytes as UTF-8 with U+FFFD for invalid sequences.
pub fn url_decode(s: &str) -> (res: String)
    ensures
        res@ == url_decoded(s@),
        valid_utf8(percent_decode(encode_utf8(s@))) ==> res@ == decode_utf8(
            percent_decode(encode_utf8(s@)),
        ),
{
    let out = percent_decode_bytes(s.as_bytes());
    utf8_lossy(out.as_slice())
}


// ---------------------------------------------------------------------------
// The callback request line
// ---------------------------------------------------------------------------

/// The maximal runs of non-whitespace characters of `s`, in order, as
/// `str::split_whitespace` yields them.
pub open spec fn words(s: Seq<char>) -> Seq<Seq<char>>
    decreases s.len(),
{
    if s.len() == 0 {
        Seq::<Seq<char>>::empty()
    } else {
        let prev = words(s.drop_last());
        if is_white_space(s.last()) {
            prev
        } else if s.len() >= 2 && !is_white_space(s[s.len() - 2]) {
            prev.update(prev.len() - 1, prev.last().push(s.last()))
        } else {
            prev.push(seq![s.last()])
        }
    }
}

/// The code and state gathered from the `key=value` pairs of a callback
/// query, read in order: the last `code` and the last `state` win, and an
/// `error` pair ends the reading with its decoded value. Pairs without `=`
/// and other keys are skipped.
pub open spec fn scan_pairs(pairs: Seq<Seq<char>>) -> Result<
    (Option<Seq<char>>, Option<Seq<char>>),
    Seq<char>,
>
    decreases pairs.len(),
{
    if pairs.len() == 0 {
        Ok((None, None))
    } else {
        match scan_pairs(pairs.drop_last()) {
            Err(e) => Err(e),
            Ok((code, state)) => match split_once(pairs.last(), '=') {
                None => Ok((code, state)),
                Some((k, v)) => if k == "code"@ {
                    Ok((Some(url_decoded(v)), state))
                } else if k == "state"@ {
                    Ok((code, Some(url_decoded(v))))
                } else if k == "error"@ {
                    Err(url_decoded(v))
                } else {
                    Ok((code, state))
                },
            },
        }
    }
}

/// What a loopback callback request line carries: the authorization code
/// and the returned state, or the OAuth message that refuses it.
pub open spec fn callback_result(line: Seq<char>) -> Result<(Seq<char>, Seq<char>), Seq<char>> {
    let w = words(line);
    if w.len() < 2 {
        Err("malformed callback request"@)
    } else {
        match split_once(w[1], '?') {
            None => Err("missing query in callback"@),
            Some((_, query)) => callback_outcome(scan_pairs(split_on(query, '&'))),
        }
    }
}

/// The outcome of a callback once its query pairs have been read.
pub open spec fn callback_outcome(
    scan: Result<(Option<Seq<char>>, Option<Seq<char>>), Seq<char>>,
) -> Result<(Seq<char>, Seq<char>), Seq<char>> {
    match scan {
        Err(e) => Err(e),
        Ok((None, _)) => Err("no code in callback"@),
        Ok((Some(_), None)) => Err("no state in callback"@),
        Ok((Some(code), Some(state))) => Ok((code, state)),
    }
}

/// The whitespace-separated words of `s` (see `words`).
fn split_words(s: &Vec<char>) -> (res: Vec<Vec<char>>)
    ensures
        views_of(res@) == words(s@),
{
    let mut done: Vec<Vec<char>> = Vec::new();
    let mut cur: Vec<char> = Vec::new();
    let mut in_word = false;
    assert(s@.take(0) =~= Seq::<char>::empty());
    for i in 0..s.len()
        invariant
            in_word <==> (i > 0 && !is_white_space(s@[i - 1])),
            in_word ==> views_of(done@).push(cur@) == words(s@.take(i as int)),
            !in_word ==> views_of(done@) == words(s@.take(i as int)),
    {
        let ghost prefix = s@.take(i + 1);
        assert(prefix.drop_last() =~= s@.take(i as int));
        assert(prefix.last() == s@[i as int]);
        let c = s[i];
        if white_space(c) {
            if in_word {
                let ghost before = views_of(done@).push(cur@);
                let word = cur;
                done.push(word);
                cur = Vec::new();
                assert(views_of(done@) =~= before);
            }
            in_word = false;
        } else {
            if in_word {
                let ghost before = views_of(done@).push(cur@);
                cur.push(c);
                assert(prefix[prefix.len() - 2] == s@[i - 1]);
                assert(views_of(done@).push(cur@) =~= before.update(
                    before.len() - 1,
                    before.last().push(c),
                ));
            } else {
                cur = Vec::new();
                cur.push(c);
                assert(i > 0 ==> prefix[prefix.len() - 2] == s@[i - 1]);
                assert(views_of(done@).push(cur@) =~= words(s@.take(i as int)).push(seq![c]));
            }
            in_word = true;
        }
    }
    assert(s@.take(s.len() as int) =~= s@);
    if in_word {
        let ghost before = views_of(done@).push(cur@);
        done.push(cur);
        assert(views_of(done@) =~= before);
    }
    done
}


/// The characters of an optional string.
pub open spec fn opt_view(o: Option<String>) -> Option<Seq<char>> {
    match o {
        Some(s) => Some(s@),
        None => None,
    }
}

/// `find_char` finds `c` in `s` exactly when `find_char_from` from 0 does.
proof fn lemma_first_from_zero(s: Seq<char>, c: char, i: int)
    requires
        first_char_at(s.skip(0), c, i),
    ensures
        find_char(s, c) == Some(i),
{
    assert(s.skip(0) =~= s);
    lemma_find_char_first(s, c, i);
}

/// Reads the authorization code and the returned state from the request
/// line of the loopback callback (`GET /callback?code=..&state=.. HTTP/1.1`).
/// An `error` parameter, a missing query, code or state are OAuth errors.
pub fn parse_callback_query(request_line: &str) -> (res: Result<(String, String), AuthError>)
    ensures
        match res {
            Ok((code, state)) => callback_result(request_line@) == Ok::<
                (Seq<char>, Seq<char>),
                Seq<char>,
            >((code@, state@)),
            Err(AuthError::OAuth(m)) => callback_result(request_line@) == Err::<
                (Seq<char>, Seq<char>),
                Seq<char>,
            >(m@),
            Err(_) => false,
        },
{
    let chars = chars_of(request_line);
    let ws = split_words(&chars);
    proof {
        assert(views_of(ws@).len() == ws@.len());
    }
    if ws.len() < 2 {
        return Err(AuthError::OAuth("malformed callback request".to_owned()));
    }
    let target = &ws[1];
    assert(views_of(ws@)[1] == target@);
    let q = match find_char_from(target, '?', 0) {
        None => {
            assert(!(exists|i: int| 0 <= i < target@.len() && target@[i] == '?'));
            return Err(AuthError::OAuth("missing query in callback".to_owned()));
        },
        Some(q) => q,
    };
    proof {
        lemma_first_from_zero(target@, '?', q as int);
    }
    let query = sub_chars(target, q + 1, target.len());
    assert(query@ =~= target@.skip(q + 1));
    let pairs = split_chars(&query, '&');
    let ghost pv = views_of(pairs@);
    let code_key = chars_of("code");
    let state_key = chars_of("state");
    let error_key = chars_of("error");
    let mut code: Option<String> = None;
    let mut state: Option<String> = None;
    assert(pv.take(0) =~= Seq::<Seq<char>>::empty());
    assert(callback_result(request_line@) == callback_outcome(scan_pairs(pv)));
    for i in 0..pairs.len()
        invariant
            callback_result(request_line@) == callback_outcome(scan_pairs(pv)),
            pv == views_of(pairs@),
            pv.len() == pairs@.len(),
            code_key@ == "code"@,
            state_key@ == "state"@,
            error_key@ == "error"@,
            scan_pairs(pv.take(i as int)) == Ok::<
                (Option<Seq<char>>, Option<Seq<char>>),
                Seq<char>,
            >((opt_view(code), opt_view(state))),
    {
        let pair = &pairs[i];
        assert(pv[i as int] == pair@);
        assert(pv.take(i + 1).drop_last() =~= pv.take(i as int));
        assert(pv.take(i + 1).last() == pair@);
        match find_char_from(pair, '=', 0) {
            None => {
                assert(!(exists|j: int| 0 <= j < pair@.len() && pair@[j] == '='));
            },
            Some(e) => {
                proof {
                    lemma_first_from_zero(pair@, '=', e as int);
                }
                let key = sub_chars(pair, 0, e);
                let value = string_from_chars(pair, e + 1, pair.len());
                assert(key@ =~= pair@.take(e as int));
                assert(value@ =~= pair@.skip(e + 1));
                let decoded = url_decode(value.as_str());
                if chars_eq(&key, &code_key) {
                    code = Some(decoded);
                } else if chars_eq(&key, &state_key) {
                    state = Some(decoded);
                } else if chars_eq(&key, &error_key) {
                    assert(scan_pairs(pv.take(i + 1)) == Err::<
                        (Option<Seq<char>>, Option<Seq<char>>),
                        Seq<char>,
                    >(decoded@));
                    proof {
                        lemma_scan_stops_at_error(pv, i + 1);
                    }
                    return Err(AuthError::OAuth(decoded));
                }
            },
        }
    }
    assert(pv.take(pairs.len() as int) =~= pv);
    match code {
        None => Err(AuthError::OAuth("no code in callback".to_owned())),
        Some(c) => match state {
            None => Err(AuthError::OAuth("no state in callback".to_owned())),
            Some(s) => Ok((c, s)),
        },
    }
}

/// Once the reading of the pairs has stopped at an `error`, the pairs after
/// it do not change the outcome.
proof fn lemma_scan_stops_at_error(pairs: Seq<Seq<char>>, n: int)
    requires
        0 <= n <= pairs.len(),
        scan_pairs(pairs.take(n)) is Err,
    ensures
        scan_pairs(pairs) == scan_pairs(pairs.take(n)),
    decreases pairs.len() - n,
{
    if n < pairs.len() {
        assert(pairs.take(n + 1).drop_last() =~= pairs.take(n));
        lemma_scan_stops_at_error(pairs, n + 1);
    } else {
        assert(pairs.take(n) =~= pairs);
    }
}

// ---------------------------------------------------------------------------
// The login attempt around the callback
// ---------------------------------------------------------------------------

/// The URL-safe base64 alphabet (RFC 4648, section 5): the character of
/// the 6-bit value `n`.
pub open spec fn base64_url_char(n: int) -> char {
    if n < 26 {
        (65 + n) as char
    } else if n < 52 {
        (97 + n - 26) as char
    } else if n < 62 {
        (48 + n - 52) as char
    } else if n == 62 {
        '-'
    } else {
        '_'
    }
}

/// URL-safe base64 without padding: each 3 bytes give 4 characters, and a
/// final 1 or 2 bytes give 2 or 3 characters.
pub open spec fn base64_url(b: Seq<u8>) -> Seq<char>
    decreases b.len(),
{
    if b.len() == 0 {
        Seq::<char>::empty()
    } else {
        let b0 = b[0] as int;
        if b.len() == 1 {
            seq![base64_url_char(b0 / 4), base64_url_char((b0 % 4) * 16)]
        } else {
            let b1 = b[1] as int;
            if b.len() == 2 {
                seq![
                    base64_url_char(b0 / 4),
                    base64_url_char((b0 % 4) * 16 + b1 / 16),
                    base64_url_char((b1 % 16) * 4),
                ]
            } else {
                let b2 = b[2] as int;
                seq![
                    base64_url_char(b0 / 4),
                    base64_url_char((b0 % 4) * 16 + b1 / 16),
                    base64_url_char((b1 % 16) * 4 + b2 / 64),
                    base64_url_char(b2 % 64),
                ] + base64_url(b.skip(3))
            }
        }
    }
}

/// The unpadded URL-safe base64 text of `n` bytes has `(4n + 2) / 3`
/// characters.
pub proof fn lemma_base64_url_len(b: Seq<u8>)
    ensures
        base64_url(b).len() == (4 * b.len() + 2) / 3,
    decreases b.len(),
{
    if b.len() >= 3 {
        lemma_base64_url_len(b.skip(3));
    }
}

/// Encodes bytes as unpadded URL-safe base64 through the `base64` crate's
/// `URL_SAFE_NO_PAD` engine (`Engine::encode`), which its documentation
/// gives as RFC 4648 section 5 without `=` padding. `encode` panics when the
/// output length overflows `usize`, which the bound leaves out.
#[verifier::external_body]
fn encode_base64_url(bytes: &[u8]) -> (res: String)
    requires
        bytes@.len() <= usize::MAX / 2,
    ensures
        res@ == base64_url(bytes@),
{
    base64::engine::general_purpose::URL_SAFE_NO_PAD.encode(bytes)
}

/// Sixteen bytes from the operating system's generator, through `rand`'s
/// `OsRng` and `TryRngCore::try_fill_bytes`, which reports a failure of the
/// generator as an error instead of panicking. Nothing is stated of the
/// bytes; `None` when the generator failed.
#[verifier::external_body]
fn random_bytes() -> (res: Option<[u8; 16]>) {
    let mut bytes = [0u8; 16];
    match rand::rngs::OsRng.try_fill_bytes(&mut bytes) {
        Ok(()) => Some(bytes),
        Err(_) => None,
    }
}

/// The CSRF state carried by sixteen bytes: their unpadded URL-safe
/// base64, which is 22 characters.
pub fn state_from_bytes(bytes: &[u8; 16]) -> (res: String)
    ensures
        res@ == base64_url(bytes@),
        res@.len() == 22,
{
    let state = encode_base64_url(bytes);
    proof {
        lemma_base64_url_len(bytes@);
    }
    state
}

/// A fresh CSRF state: sixteen bytes drawn from the operating system's
/// generator, carried by `state_from_bytes`. A failure of the generator is
/// a platform error.
pub fn random_state() -> (res: Result<String, AuthError>)
    ensures
        res matches Ok(state) ==> (exists|b: Seq<u8>| b.len() == 16 && state@ == base64_url(b))
            && state@.len() == 22,
        res matches Err(e) ==> (e matches AuthError::Platform(m) && m@
            == "random state: the operating system generator failed"@),
{
    match random_bytes() {
        None => Err(AuthError::Platform("random state: the operating system generator failed".to_owned())),
        Some(bytes) => Ok(state_from_bytes(&bytes)),
    }
}

/// The loopback redirect URI on `port`.
pub open spec fn redirect_uri_for(port: u16) -> Seq<char> {
    "http://127.0.0.1:"@ + decimal(port as nat) + "/callback"@
}

/// The redirect URI that the loopback listener on `port` serves.
pub fn loopback_redirect_uri(port: u16) -> (res: String)
    ensures
        res@ == redirect_uri_for(port),
{
    let mut uri = "http://127.0.0.1:".to_owned();
    push_decimal(&mut uri, port as u64);
    uri.append("/callback");
    uri
}

/// The HTTP reply sent to the browser after the callback, carrying `body`
/// (`Content-Length` counts its UTF-8 bytes).
pub open spec fn callback_reply(body: Seq<char>) -> Seq<char> {
    "HTTP/1.1 200 OK\r\nContent-Type: text/html; charset=utf-8\r\nContent-Length: "@
        + decimal(encode_utf8(body).len()) + "\r\nConnection: close\r\n\r\n"@ + body
}

/// The HTTP reply that closes the browser's callback request with `body`.
pub fn callback_response(body: &str) -> (res: String)
    ensures
        res@ == callback_reply(body@),
{
    let mut reply = "HTTP/1.1 200 OK\r\nContent-Type: text/html; charset=utf-8\r\nContent-Length: ".to_owned();
    push_decimal(&mut reply, body.as_bytes().len() as u64);
    reply.append("\r\nConnection: close\r\n\r\n");
    reply.append(body);
    assert(reply@ =~= callback_reply(body@));
    reply
}

/// What a login attempt accepts from its callback: the authorization code,
/// provided the callback parses and returns exactly the state that was sent.
pub open spec fn accepted_code(line: Seq<char>, expected_state: Seq<char>) -> Result<Seq<char>, Seq<char>> {
    match callback_result(line) {
        Err(m) => Err(m),
        Ok((code, state)) => if state == expected_state {
            Ok(code)
        } else {
            Err("CSRF state mismatch"@)
        },
    }
}

/// Reads the callback request line and checks its state against the one
/// sent in the authorization URL; a different state is a CSRF refusal.
pub fn accept_callback(request_line: &str, expected_state: &str) -> (res: Result<String, AuthError>)
    ensures
        match res {
            Ok(code) => accepted_code(request_line@, expected_state@) == Ok::<Seq<char>, Seq<char>>(code@),
            Err(AuthError::OAuth(m)) => accepted_code(request_line@, expected_state@) == Err::<Seq<char>, Seq<char>>(m@),
            Err(_) => false,
        },
{
    let (code, returned_state) = parse_callback_query(request_line)?;
    if !crate::text::str_eq(returned_state.as_str(), expected_state) {
        return Err(AuthError::OAuth("CSRF state mismatch".to_owned()));
    }
    Ok(code)
}

// ---------------------------------------------------------------------------
// Laws
// ---------------------------------------------------------------------------

/// The bytes of a character sequence whose characters are all ASCII.
pub open spec fn ascii_bytes(cs: Seq<char>) -> Seq<u8> {
    cs.map_values(|c: char| c as u8)
}

/// The UTF-8 encoding of ASCII text is its characters read as bytes.
proof fn lemma_encode_ascii(cs: Seq<char>)
    requires
        is_ascii_chars(cs),
    ensures
        encode_utf8(cs) == ascii_bytes(cs),
{
    is_ascii_chars_encode_utf8(cs);
    assert(encode_utf8(cs) =~= ascii_bytes(cs));
}

/// Percent-encoding can be unfolded from the front.
proof fn lemma_percent_encode_first(b: Seq<u8>)
    requires
        b.len() > 0,
    ensures
        percent_encode(b) == encode_byte(b[0]) + percent_encode(b.drop_first()),
    decreases b.len(),
{
    if b.len() == 1 {
        assert(b.drop_last() =~= Seq::<u8>::empty());
        assert(b.drop_first() =~= Seq::<u8>::empty());
        assert(percent_encode(b) =~= encode_byte(b[0]) + percent_encode(b.drop_first()));
    } else {
        lemma_percent_encode_first(b.drop_last());
        assert(b.drop_last().drop_first() =~= b.drop_first().drop_last());
        assert(b.drop_first().last() == b.last());
        assert(percent_encode(b) =~= encode_byte(b[0]) + percent_encode(b.drop_first()));
    }
}

/// Percent-encoded text is ASCII.
proof fn lemma_percent_encode_ascii(b: Seq<u8>)
    ensures
        is_ascii_chars(percent_encode(b)),
    decreases b.len(),
{
    if b.len() > 0 {
        lemma_percent_encode_ascii(b.drop_last());
        let e = encode_byte(b.last());
        assert(is_ascii_chars(e));
        assert forall|i: int| 0 <= i < percent_encode(b).len() implies '\0' <= #[trigger] percent_encode(
            b,
        )[i] <= '\u{7f}' by {
            let p = percent_encode(b.drop_last());
            if i < p.len() {
                assert(percent_encode(b)[i] == p[i]);
            } else {
                assert(percent_encode(b)[i] == e[i - p.len()]);
            }
        }
    }
}

/// Decoding the bytes of percent-encoded text gives back the bytes.
proof fn lemma_decode_encoded(b: Seq<u8>)
    ensures
        percent_decode(ascii_bytes(percent_encode(b))) == b,
    decreases b.len(),
{
    if b.len() == 0 {
        assert(ascii_bytes(percent_encode(b)) =~= Seq::<u8>::empty());
    } else {
        lemma_percent_encode_first(b);
        lemma_decode_encoded(b.drop_first());
        let head = encode_byte(b[0]);
        let tail = percent_encode(b.drop_first());
        let m = ascii_bytes(percent_encode(b));
        assert(m =~= ascii_bytes(head) + ascii_bytes(tail));
        let b0 = b[0];
        if is_unreserved(b0) {
            assert(m[0] == b0);
            assert(m.skip(1) =~= ascii_bytes(tail));
            assert(percent_decode(m) =~= seq![b0] + b.drop_first());
        } else {
            let hi = b0 as int / 16;
            let lo = b0 as int % 16;
            assert(m[0] == 0x25u8);
            assert(m[1] == hex_upper(hi) as u8);
            assert(m[2] == hex_upper(lo) as u8);
            assert(hex_value(m[1]) == Some(hi as u8));
            assert(hex_value(m[2]) == Some(lo as u8));
            assert(m.skip(3) =~= ascii_bytes(tail));
            assert(((hi as u8) * 16 + (lo as u8)) as u8 == b0);
            assert(percent_decode(m) =~= seq![b0] + b.drop_first());
        }
        assert(seq![b0] + b.drop_first() =~= b);
    }
}

/// A query value that `push_query` wrote decodes back to itself: the
/// percent-decoding of its encoding is the value's UTF-8, which decodes to
/// the value (so `url_decode` of the encoding gives the value back).
pub proof fn query_value_round_trip(value: Seq<char>)
    ensures
        percent_decode(encode_utf8(percent_encode(encode_utf8(value)))) == encode_utf8(value),
        valid_utf8(percent_decode(encode_utf8(percent_encode(encode_utf8(value))))),
        decode_utf8(percent_decode(encode_utf8(percent_encode(encode_utf8(value))))) == value,
{
    let b = encode_utf8(value);
    lemma_percent_encode_ascii(b);
    lemma_encode_ascii(percent_encode(b));
    lemma_decode_encoded(b);
    encode_utf8_valid_utf8(value);
    encode_utf8_decode_utf8(value);
}

/// Every character of the URL-safe base64 alphabet may stand unescaped in
/// a query value.
proof fn lemma_base64_url_unreserved(b: Seq<u8>)
    ensures
        forall|i: int|
            0 <= i < base64_url(b).len() ==> #[trigger] is_unreserved(base64_url(b)[i] as u8)
                && (base64_url(b)[i] as u8) as char == base64_url(b)[i],
    decreases b.len(),
{
    if b.len() >= 3 {
        lemma_base64_url_unreserved(b.skip(3));
        let head = seq![
            base64_url_char(b[0] as int / 4),
            base64_url_char((b[0] as int % 4) * 16 + b[1] as int / 16),
            base64_url_char((b[1] as int % 16) * 4 + b[2] as int / 64),
            base64_url_char(b[2] as int % 64),
        ];
        assert forall|i: int| 0 <= i < base64_url(b).len() implies #[trigger] is_unreserved(
            base64_url(b)[i] as u8,
        ) && (base64_url(b)[i] as u8) as char == base64_url(b)[i] by {
            if i >= 4 {
                assert(base64_url(b)[i] == base64_url(b.skip(3))[i - 4]);
            }
        }
    }
}

/// Percent-encoding leaves unreserved ASCII text unchanged.
proof fn lemma_unreserved_verbatim(cs: Seq<char>)
    requires
        forall|i: int|
            0 <= i < cs.len() ==> #[trigger] is_unreserved(cs[i] as u8) && (cs[i] as u8) as char
                == cs[i],
    ensures
        percent_encode(ascii_bytes(cs)) == cs,
    decreases cs.len(),
{
    if cs.len() > 0 {
        let m = ascii_bytes(cs);
        assert(m.drop_last() =~= ascii_bytes(cs.drop_last()));
        assert forall|i: int| 0 <= i < cs.drop_last().len() implies #[trigger] is_unreserved(
            cs.drop_last()[i] as u8,
        ) && (cs.drop_last()[i] as u8) as char == cs.drop_last()[i] by {
            assert(cs.drop_last()[i] == cs[i]);
        }
        lemma_unreserved_verbatim(cs.drop_last());
        assert(is_unreserved(cs.last() as u8));
        assert(percent_encode(m) =~= cs);
    }
}

/// The CSRF state of `random_state` travels verbatim in the authorization
/// URL: percent-encoding leaves URL-safe base64 text unchanged, so the URL
/// carries `state=` followed by the state itself.
pub proof fn state_sent_verbatim(b: Seq<u8>)
    ensures
        query_pair("state"@, base64_url(b)) == "state"@ + seq!['='] + base64_url(b),
{
    let cs = base64_url(b);
    lemma_base64_url_unreserved(b);
    assert(is_ascii_chars(cs)) by {
        assert forall|i: int| 0 <= i < cs.len() implies '\0' <= #[trigger] cs[i] <= '\u{7f}' by {
            assert(is_unreserved(cs[i] as u8));
        }
    }
    lemma_encode_ascii(cs);
    lemma_unreserved_verbatim(cs);
}

/// The code and the state of a callback are each the decoded value of the
/// last pair with their key: a `code=v` pair read after the earlier pairs
/// sets the code to the url-decoding of `v` and keeps the state, and a
/// `state=v` pair sets the state to the url-decoding of `v` and keeps the
/// code.
pub proof fn last_pair_gives_the_decoded_value(pairs: Seq<Seq<char>>, value: Seq<char>)
    ensures
        scan_pairs(pairs) matches Ok((code, state)) ==> scan_pairs(
            pairs.push(seq!['c', 'o', 'd', 'e', '='] + value),
        ) == Ok::<(Option<Seq<char>>, Option<Seq<char>>), Seq<char>>(
            (Some(url_decoded(value)), state),
        ),
        scan_pairs(pairs) matches Ok((code, state)) ==> scan_pairs(
            pairs.push(seq!['s', 't', 'a', 't', 'e', '='] + value),
        ) == Ok::<(Option<Seq<char>>, Option<Seq<char>>), Seq<char>>(
            (code, Some(url_decoded(value))),
        ),
{
    reveal_strlit("code");
    reveal_strlit("state");
    let c = seq!['c', 'o', 'd', 'e', '='] + value;
    let st = seq!['s', 't', 'a', 't', 'e', '='] + value;
    lemma_find_char_first(c, '=', 4);
    lemma_find_char_first(st, '=', 5);
    assert(c.take(4) =~= "code"@);
    assert(c.skip(5) =~= value);
    assert(st.take(5) =~= "state"@);
    assert(st.skip(6) =~= value);
    assert(pairs.push(c).drop_last() =~= pairs);
    assert(pairs.push(st).drop_last() =~= pairs);
    assert(st.take(5) != "code"@) by {
        assert(st.take(5).len() != "code"@.len());
    }
}

} // verus!
