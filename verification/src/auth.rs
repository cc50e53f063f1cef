//! The headers that authenticate the connector to Gluetun's control server.
use vstd::prelude::*;
use crate::config::Config;
use crate::text::{append_str, owned};
use base64::Engine;
use vstd::utf8::encode_utf8;

verus! {

/// A character that `HeaderValue::from_str` accepts: visible ASCII, space,
/// tab, or any non-ASCII character (every byte of its UTF-8 encoding is at
/// least 0x80, which the header check accepts).
pub open spec fn header_char_ok(c: char) -> bool {
    ((c as u32) >= 32 && (c as u32) != 127) || c == '\t'
}

/// Text that can be a header value.
pub open spec fn header_value_ok(s: Seq<char>) -> bool {
    forall|i: int| 0 <= i < s.len() ==> header_char_ok(#[trigger] s[i])
}

/// Calls `reqwest::header::HeaderValue::from_str`. Claims that it accepts
/// `value` exactly when every byte of its UTF-8 encoding is at least 32 and
/// not 127, or is a tab, which is `header_value_ok` over its characters.
#[verifier::external_body]
fn header_value_accepted(value: &str) -> (ok: bool)
    ensures
        ok == header_value_ok(value@),
{
    reqwest::header::HeaderValue::from_str(value).is_ok()
}

/// A character of the standard Base64 alphabet, or the padding `=`.
pub open spec fn base64_char(c: char) -> bool {
    ||| 'A' <= c <= 'Z'
    ||| 'a' <= c <= 'z'
    ||| '0' <= c <= '9'
    ||| c == '+'
    ||| c == '/'
    ||| c == '='
}

/// The character of the standard Base64 alphabet for the six-bit value `v`:
/// `A`–`Z`, `a`–`z`, `0`–`9`, `+`, `/`.
pub open spec fn base64_digit(v: int) -> char {
    if v < 26 {
        (65 + v) as u8 as char
    } else if v < 52 {
        (97 + (v - 26)) as u8 as char
    } else if v < 62 {
        (48 + (v - 52)) as u8 as char
    } else if v == 62 {
        '+'
    } else {
        '/'
    }
}

/// The standard Base64 encoding of `b`, padded with `=`: each group of three
/// bytes becomes four characters of six bits each, and a last group of one or
/// two bytes is filled up with zero bits and `=`.
pub open spec fn base64_of(b: Seq<u8>) -> Seq<char>
    decreases b.len(),
{
    if b.len() == 0 {
        Seq::empty()
    } else {
        let x = b[0] as int;
        let y = if b.len() >= 2 { b[1] as int } else { 0 };
        let z = if b.len() >= 3 { b[2] as int } else { 0 };
        let first = base64_digit(x / 4);
        let second = base64_digit((x % 4) * 16 + y / 16);
        if b.len() == 1 {
            seq![first, second, '=', '=']
        } else if b.len() == 2 {
            seq![first, second, base64_digit((y % 16) * 4), '=']
        } else {
            seq![first, second, base64_digit((y % 16) * 4 + z / 64), base64_digit(z % 64)]
                + base64_of(b.skip(3))
        }
    }
}

proof fn lemma_base64_digit(v: int)
    requires
        0 <= v < 64,
    ensures
        base64_char(base64_digit(v)),
{
}

/// Base64 text is made of the alphabet and `=` only.
pub proof fn lemma_base64_chars(b: Seq<u8>)
    ensures
        forall|i: int| 0 <= i < base64_of(b).len() ==> base64_char(#[trigger] base64_of(b)[i]),
    decreases b.len(),
{
    if b.len() > 0 {
        let x = b[0] as int;
        let y = if b.len() >= 2 { b[1] as int } else { 0 };
        let z = if b.len() >= 3 { b[2] as int } else { 0 };
        lemma_base64_digit(x / 4);
        lemma_base64_digit((x % 4) * 16 + y / 16);
        lemma_base64_digit((y % 16) * 4);
        lemma_base64_digit((y % 16) * 4 + z / 64);
        lemma_base64_digit(z % 64);
        if b.len() >= 3 {
            lemma_base64_chars(b.skip(3));
            let head = seq![
                base64_digit(x / 4),
                base64_digit((x % 4) * 16 + y / 16),
                base64_digit((y % 16) * 4 + z / 64),
                base64_digit(z % 64),
            ];
            assert forall|i: int| 0 <= i < base64_of(b).len() implies base64_char(
                #[trigger] base64_of(b)[i],
            ) by {
                if i >= 4 {
                    assert(base64_of(b)[i] == base64_of(b.skip(3))[i - 4]);
                } else {
                    assert(base64_of(b)[i] == head[i]);
                }
            }
        }
    }
}


/// The six-bit value of a character of the standard Base64 alphabet.
pub open spec fn base64_value(c: char) -> int {
    if 'A' <= c <= 'Z' {
        (c as int) - 65
    } else if 'a' <= c <= 'z' {
        (c as int) - 97 + 26
    } else if '0' <= c <= '9' {
        (c as int) - 48 + 52
    } else if c == '+' {
        62
    } else {
        63
    }
}

/// Standard Base64 decoding of padded text: each group of four characters
/// gives three bytes, or fewer where it ends in `=`.
pub open spec fn base64_decode(s: Seq<char>) -> Seq<u8>
    decreases s.len(),
{
    if s.len() < 4 {
        Seq::empty()
    } else {
        let v0 = base64_value(s[0]);
        let v1 = base64_value(s[1]);
        let v2 = base64_value(s[2]);
        let v3 = base64_value(s[3]);
        let b0 = (v0 * 4 + v1 / 16) as u8;
        let b1 = ((v1 % 16) * 16 + v2 / 4) as u8;
        let b2 = ((v2 % 4) * 64 + v3) as u8;
        if s[2] == '=' {
            seq![b0]
        } else if s[3] == '=' {
            seq![b0, b1]
        } else {
            seq![b0, b1, b2] + base64_decode(s.skip(4))
        }
    }
}

proof fn lemma_base64_value(v: int)
    requires
        0 <= v < 64,
    ensures
        base64_value(base64_digit(v)) == v,
        base64_digit(v) != '=',
{
}

/// `base64_of` is padded standard Base64: four characters for every three
/// bytes begun, so its length is always a multiple of four, and decoding it
/// gives back the bytes.
pub proof fn law_base64_padded_and_decodable(b: Seq<u8>)
    ensures
        base64_of(b).len() == 4 * ((b.len() + 2) / 3),
        base64_of(b).len() % 4 == 0,
        base64_decode(base64_of(b)) == b,
    decreases b.len(),
{
    if b.len() > 0 {
        let x = b[0] as int;
        let y = if b.len() >= 2 { b[1] as int } else { 0 };
        let z = if b.len() >= 3 { b[2] as int } else { 0 };
        lemma_base64_value(x / 4);
        lemma_base64_value((x % 4) * 16 + y / 16);
        lemma_base64_value((y % 16) * 4);
        lemma_base64_value((y % 16) * 4 + z / 64);
        lemma_base64_value(z % 64);
        assert((x / 4) * 4 + ((x % 4) * 16 + y / 16) / 16 == x);
        assert((((x % 4) * 16 + y / 16) % 16) * 16 + ((y % 16) * 4 + z / 64) / 4 == y);
        assert((((y % 16) * 4 + z / 64) % 4) * 64 + z % 64 == z);
        assert((((x % 4) * 16 + y / 16) % 16) * 16 + ((y % 16) * 4) / 4 == y);
        if b.len() >= 3 {
            law_base64_padded_and_decodable(b.skip(3));
            let s = base64_of(b);
            assert(s.skip(4) == base64_of(b.skip(3)));
            assert(b == seq![b[0], b[1], b[2]] + b.skip(3));
        } else if b.len() == 2 {
            assert(b == seq![b[0], b[1]]);
        } else {
            assert(b == seq![b[0]]);
        }
    }
}

/// Calls `base64::engine::general_purpose::STANDARD.encode`, which encodes
/// the UTF-8 bytes of the text. Claims that the result is `base64_of` those
/// bytes. The bound on the length keeps the encoder's size computation from
/// overflowing (a UTF-8 character takes at most four bytes).
#[verifier::external_body]
fn encode_base64(text: &str) -> (encoded: String)
    requires
        text@.len() <= usize::MAX / 8,
    ensures
        encoded@ == base64_of(encode_utf8(text@)),
{
    base64::engine::general_purpose::STANDARD.encode(text)
}

/// One header to send with every request to Gluetun.
#[derive(Debug)]
pub struct AuthHeader {
    pub name: String,
    pub value: String,
}

/// The credentials of Basic authentication, `user:password`.
pub open spec fn basic_credentials(user: Seq<char>, password: Seq<char>) -> Seq<char> {
    user + ":"@ + password
}

/// The headers for the given credentials: the API key as `x-api-key` where
/// one is set (and nothing if it cannot be a header value); otherwise Basic
/// authentication where both user and password are set; otherwise none.
pub open spec fn auth_headers_for(
    api_key: Option<Seq<char>>,
    user: Option<Seq<char>>,
    password: Option<Seq<char>>,
) -> Seq<(Seq<char>, Seq<char>)> {
    match api_key {
        Some(key) => if header_value_ok(key) {
            seq![("x-api-key"@, key)]
        } else {
            Seq::empty()
        },
        None => match (user, password) {
            (Some(u), Some(p)) => seq![
                ("authorization"@, "Basic "@ + base64_of(encode_utf8(basic_credentials(u, p)))),
            ],
            _ => Seq::empty(),
        },
    }
}

pub open spec fn opt_text(o: Option<String>) -> Option<Seq<char>> {
    match o {
        Some(s) => Some(s@),
        None => None,
    }
}

/// The headers as (name, value) texts.
pub open spec fn headers_view(h: Seq<AuthHeader>) -> Seq<(Seq<char>, Seq<char>)> {
    h.map_values(|a: AuthHeader| (a.name@, a.value@))
}

/// The credentials fit the Base64 encoder's size limit.
pub open spec fn credentials_fit(config: &Config) -> bool {
    config.gluetun_api_key is None ==> match (config.gluetun_user, config.gluetun_password) {
        (Some(u), Some(p)) => u@.len() + p@.len() + 1 <= usize::MAX / 8,
        _ => true,
    }
}

/// Builds the authentication headers for requests to Gluetun.
pub fn build_auth_headers(config: &Config) -> (headers: Vec<AuthHeader>)
    requires
        credentials_fit(config),
    ensures
        headers_view(headers@) == auth_headers_for(
            opt_text(config.gluetun_api_key),
            opt_text(config.gluetun_user),
            opt_text(config.gluetun_password),
        ),
{
    let mut headers: Vec<AuthHeader> = Vec::new();
    match &config.gluetun_api_key {
        Some(key) => {
            if header_value_accepted(key.as_str()) {
                headers.push(AuthHeader { name: owned("x-api-key"), value: key.clone() });
            }
        },
        None => match (&config.gluetun_user, &config.gluetun_password) {
            (Some(user), Some(pass)) => {
                let mut credentials = user.clone();
                append_str(&mut credentials, ":");
                append_str(&mut credentials, pass.as_str());
                proof {
                    reveal_strlit(":");
                }
                let encoded = encode_base64(credentials.as_str());
                let mut value = owned("Basic ");
                append_str(&mut value, encoded.as_str());
                proof {
                    lemma_base64_chars(encode_utf8(credentials@));
                    reveal_strlit("Basic ");
                    assert forall|i: int| 0 <= i < value@.len() implies header_char_ok(
                        #[trigger] value@[i],
                    ) by {
                        if i >= 6 {
                            assert(value@[i] == encoded@[i - 6]);
                            assert(base64_char(encoded@[i - 6]));
                        }
                    }
                }
                if header_value_accepted(value.as_str()) {
                    headers.push(AuthHeader { name: owned("authorization"), value });
                }
            },
            _ => {},
        },
    }
    assert(headers_view(headers@) == auth_headers_for(
        opt_text(config.gluetun_api_key),
        opt_text(config.gluetun_user),
        opt_text(config.gluetun_password),
    ));
    headers
}

} // verus!
