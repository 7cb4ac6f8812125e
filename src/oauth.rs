//! OAuth 1.0a one-legged request signing with HMAC-SHA1.
//!
//! The six protocol parameters are kept in ascending order of their names,
//! which is the order the receiving side recomputes the base string in; the
//! signature, once computed, takes its place among them by name.

use vstd::prelude::*;
use vstd::utf8::encode_utf8;

use crate::digest::{base64_encode, base64_standard, hmac_sha1, hmac_sha1_of};
use crate::percent::{percent_encode, url_encode};
use crate::text::{decimal, decimal_string, join, join_strings, push_char, views};

verus! {

/// Why no header could be made.
#[derive(Debug, Clone, Copy, PartialEq, Eq, Structural)]
pub enum SignError {
    /// The system clock reads a time before the Unix epoch.
    ClockBeforeEpoch,
    /// The MAC refused the signing key.
    KeyRejected,
}

impl SignError {
    /// A text for the user.
    pub fn message(&self) -> (r: String)
        ensures
            r@ == match self {
                SignError::ClockBeforeEpoch => "時刻取得エラー: system clock is before the Unix epoch"@,
                SignError::KeyRejected => "HMAC初期化エラー: invalid key length"@,
            },
    {
        match self {
            SignError::ClockBeforeEpoch => "時刻取得エラー: system clock is before the Unix epoch".to_owned(),
            SignError::KeyRejected => "HMAC初期化エラー: invalid key length".to_owned(),
        }
    }
}

pub const NONCE_ALPHABET: [char; 62] = [
    'a', 'b', 'c', 'd', 'e', 'f', 'g', 'h', 'i', 'j', 'k', 'l', 'm', 'n', 'o', 'p', 'q', 'r', 's',
    't', 'u', 'v', 'w', 'x', 'y', 'z', 'A', 'B', 'C', 'D', 'E', 'F', 'G', 'H', 'I', 'J', 'K', 'L',
    'M', 'N', 'O', 'P', 'Q', 'R', 'S', 'T', 'U', 'V', 'W', 'X', 'Y', 'Z', '0', '1', '2', '3', '4',
    '5', '6', '7', '8', '9',
];

pub const NONCE_LEN: usize = 32;

/// A nonce: 32 characters, each a letter or a digit.
pub open spec fn is_nonce(n: Seq<char>) -> bool {
    &&& n.len() == NONCE_LEN
    &&& forall|i: int| 0 <= i < n.len() ==> NONCE_ALPHABET@.contains(#[trigger] n[i])
}

/// Relies on `rand::random`: a value drawn from the thread-local generator.
/// Nothing is promised of the value.
pub assume_specification<T>[ rand::random::<T> ]() -> (r: T)
    where
        rand::distributions::Standard: rand::distributions::Distribution<T>,
;

/// Relies on `std::time::SystemTime::now`, read as whole seconds since the Unix
/// epoch; `None` where the clock stands before the epoch.
#[verifier::external_body]
fn unix_seconds_now() -> (r: Option<u64>) {
    std::time::SystemTime::now().duration_since(std::time::UNIX_EPOCH).ok().map(|d| d.as_secs())
}

/// The nonce character a draw selects: the draw modulo 62 indexes the
/// alphabet.
pub open spec fn nonce_char(draw: usize) -> char {
    NONCE_ALPHABET@[(draw % 62) as int]
}

/// The nonce the draws select, one character per draw, in order.
pub open spec fn nonce_of(draws: Seq<usize>) -> Seq<char> {
    draws.map_values(|d: usize| nonce_char(d))
}

/// The nonce made from the given draws.
pub fn nonce_from_draws(draws: &Vec<usize>) -> (r: String)
    ensures
        r@ == nonce_of(draws@),
{
    let mut r = String::new();
    let mut i: usize = 0;
    while i < draws.len()
        invariant
            i <= draws@.len(),
            r@ == nonce_of(draws@.take(i as int)),
        decreases draws@.len() - i,
    {
        let j: usize = draws[i] % 62;
        push_char(&mut r, NONCE_ALPHABET[j]);
        proof {
            assert(r@ =~= nonce_of(draws@.take(i + 1)));
        }
        i += 1;
    }
    assert(draws@.take(draws@.len() as int) =~= draws@);
    r
}

/// Every nonce made of 32 draws is a nonce: 32 letters and digits.
pub proof fn lemma_drawn_nonce_valid(draws: Seq<usize>)
    requires
        draws.len() == NONCE_LEN,
    ensures
        is_nonce(nonce_of(draws)),
{
    assert forall|i: int| 0 <= i < nonce_of(draws).len() implies NONCE_ALPHABET@.contains(
        #[trigger] nonce_of(draws)[i],
    ) by {
        assert(NONCE_ALPHABET@[(draws[i] % 62) as int] == nonce_of(draws)[i]);
    }
}

/// A fresh nonce from 32 random draws.
pub fn generate_nonce() -> (r: String)
    ensures
        exists|draws: Seq<usize>| draws.len() == NONCE_LEN && r@ == nonce_of(draws),
        is_nonce(r@),
{
    let mut draws: Vec<usize> = Vec::new();
    let mut i: usize = 0;
    while i < NONCE_LEN
        invariant
            i <= NONCE_LEN,
            draws@.len() == i,
        decreases NONCE_LEN - i,
    {
        draws.push(rand::random::<usize>());
        i += 1;
    }
    let r = nonce_from_draws(&draws);
    proof {
        lemma_drawn_nonce_valid(draws@);
    }
    r
}

/// The protocol parameters other than the signature, in ascending order of name.
pub open spec fn oauth_params(consumer_key: Seq<char>, nonce: Seq<char>, timestamp: u64, token: Seq<char>)
    -> Seq<(Seq<char>, Seq<char>)>
{
    seq![
        ("oauth_consumer_key"@, consumer_key),
        ("oauth_nonce"@, nonce),
        ("oauth_signature_method"@, "HMAC-SHA1"@),
        ("oauth_timestamp"@, decimal(timestamp as nat)),
        ("oauth_token"@, token),
        ("oauth_version"@, "1.0"@),
    ]
}

/// `key=value`, both percent-encoded.
pub open spec fn encoded_pair(p: (Seq<char>, Seq<char>)) -> Seq<char> {
    percent_encode(p.0) + "="@ + percent_encode(p.1)
}

/// `key="value"`, both percent-encoded.
pub open spec fn quoted_pair(p: (Seq<char>, Seq<char>)) -> Seq<char> {
    percent_encode(p.0) + "=\""@ + percent_encode(p.1) + "\""@
}

/// The parameter string: the encoded pairs joined with `&`.
pub open spec fn param_string_of(params: Seq<(Seq<char>, Seq<char>)>) -> Seq<char> {
    join(params.map_values(|p: (Seq<char>, Seq<char>)| encoded_pair(p)), "&"@)
}

/// `METHOD&encode(url)&encode(parameter string)`.
pub open spec fn base_string_of(method: Seq<char>, url: Seq<char>, params: Seq<(Seq<char>, Seq<char>)>)
    -> Seq<char>
{
    method + "&"@ + percent_encode(url) + "&"@ + percent_encode(param_string_of(params))
}

/// `encode(consumer secret)&encode(token secret)`.
pub open spec fn signing_key_of(consumer_secret: Seq<char>, token_secret: Seq<char>) -> Seq<char> {
    percent_encode(consumer_secret) + "&"@ + percent_encode(token_secret)
}

/// The base64 text of the HMAC-SHA1 tag of the base string under the signing key.
pub open spec fn signature_of(
    method: Seq<char>,
    url: Seq<char>,
    consumer_secret: Seq<char>,
    token_secret: Seq<char>,
    params: Seq<(Seq<char>, Seq<char>)>,
) -> Seq<char> {
    base64_encode(
        hmac_sha1_of(
            encode_utf8(signing_key_of(consumer_secret, token_secret)),
            encode_utf8(base_string_of(method, url, params)),
        ),
    )
}

/// The parameters with the signature in its place by name: after
/// `oauth_nonce`, before `oauth_signature_method`.
pub open spec fn signed_params(params: Seq<(Seq<char>, Seq<char>)>, signature: Seq<char>) -> Seq<
    (Seq<char>, Seq<char>),
> {
    params.insert(2, ("oauth_signature"@, signature))
}

/// The whole `Authorization` header value for fixed nonce and timestamp.
pub open spec fn header_of(
    method: Seq<char>,
    url: Seq<char>,
    consumer_key: Seq<char>,
    consumer_secret: Seq<char>,
    token: Seq<char>,
    token_secret: Seq<char>,
    nonce: Seq<char>,
    timestamp: u64,
) -> Seq<char> {
    let params = oauth_params(consumer_key, nonce, timestamp, token);
    let signature = signature_of(method, url, consumer_secret, token_secret, params);
    "OAuth "@ + join(
        signed_params(params, signature).map_values(|p: (Seq<char>, Seq<char>)| quoted_pair(p)),
        ", "@,
    )
}

fn encoded_pair_string(key: &str, value: &str) -> (r: String)
    ensures
        r@ == encoded_pair((key@, value@)),
{
    let mut r = url_encode(key);
    r.append("=");
    let v = url_encode(value);
    r.append(v.as_str());
    r
}

fn quoted_pair_string(key: &str, value: &str) -> (r: String)
    ensures
        r@ == quoted_pair((key@, value@)),
{
    let mut r = url_encode(key);
    r.append("=\"");
    let v = url_encode(value);
    r.append(v.as_str());
    r.append("\"");
    r
}

/// The parameter string of the six protocol parameters.
pub fn parameter_string(consumer_key: &str, nonce: &str, timestamp: u64, token: &str) -> (r: String)
    ensures
        r@ == param_string_of(oauth_params(consumer_key@, nonce@, timestamp, token@)),
{
    let ts = decimal_string(timestamp);
    let mut pieces: Vec<String> = Vec::new();
    pieces.push(encoded_pair_string("oauth_consumer_key", consumer_key));
    pieces.push(encoded_pair_string("oauth_nonce", nonce));
    pieces.push(encoded_pair_string("oauth_signature_method", "HMAC-SHA1"));
    pieces.push(encoded_pair_string("oauth_timestamp", ts.as_str()));
    pieces.push(encoded_pair_string("oauth_token", token));
    pieces.push(encoded_pair_string("oauth_version", "1.0"));
    let r = join_strings(&pieces, "&");
    assert(views(pieces@) =~= oauth_params(consumer_key@, nonce@, timestamp, token@).map_values(
        |p: (Seq<char>, Seq<char>)| encoded_pair(p),
    ));
    r
}

/// The signature base string.
pub fn signature_base_string(
    method: &str,
    url: &str,
    consumer_key: &str,
    nonce: &str,
    timestamp: u64,
    token: &str,
) -> (r: String)
    ensures
        r@ == base_string_of(method@, url@, oauth_params(consumer_key@, nonce@, timestamp, token@)),
{
    let params = parameter_string(consumer_key, nonce, timestamp, token);
    let mut r = method.to_owned();
    r.append("&");
    r.append(url_encode(url).as_str());
    r.append("&");
    r.append(url_encode(params.as_str()).as_str());
    r
}

/// The key the base string is signed with.
pub fn signing_key(consumer_secret: &str, token_secret: &str) -> (r: String)
    ensures
        r@ == signing_key_of(consumer_secret@, token_secret@),
{
    let mut r = url_encode(consumer_secret);
    r.append("&");
    r.append(url_encode(token_secret).as_str());
    r
}

/// The value of `oauth_signature` for the given request and parameters.
pub fn sign(
    method: &str,
    url: &str,
    consumer_key: &str,
    consumer_secret: &str,
    token: &str,
    token_secret: &str,
    nonce: &str,
    timestamp: u64,
) -> (r: Result<String, SignError>)
    ensures
        r matches Ok(s) && s@ == signature_of(
            method@,
            url@,
            consumer_secret@,
            token_secret@,
            oauth_params(consumer_key@, nonce@, timestamp, token@),
        ),
{
    let base = signature_base_string(method, url, consumer_key, nonce, timestamp, token);
    let key = signing_key(consumer_secret, token_secret);
    match hmac_sha1(key.as_str().as_bytes(), base.as_str().as_bytes()) {
        Ok(tag) => Ok(base64_standard(tag.as_slice())),
        Err(_) => Err(SignError::KeyRejected),
    }
}

/// The `Authorization` header for a request signed with the given nonce and
/// timestamp. The request body takes no part in the signature.
pub fn create_oauth_header_at(
    method: &str,
    url: &str,
    consumer_key: &str,
    consumer_secret: &str,
    token: &str,
    token_secret: &str,
    nonce: &str,
    timestamp: u64,
) -> (r: Result<String, SignError>)
    ensures
        r matches Ok(h) && h@ == header_of(
            method@,
            url@,
            consumer_key@,
            consumer_secret@,
            token@,
            token_secret@,
            nonce@,
            timestamp,
        ),
{
    let signature = match sign(
        method,
        url,
        consumer_key,
        consumer_secret,
        token,
        token_secret,
        nonce,
        timestamp,
    ) {
        Ok(s) => s,
        Err(e) => {
            return Err(e);
        },
    };
    let ts = decimal_string(timestamp);
    let mut pieces: Vec<String> = Vec::new();
    pieces.push(quoted_pair_string("oauth_consumer_key", consumer_key));
    pieces.push(quoted_pair_string("oauth_nonce", nonce));
    pieces.push(quoted_pair_string("oauth_signature", signature.as_str()));
    pieces.push(quoted_pair_string("oauth_signature_method", "HMAC-SHA1"));
    pieces.push(quoted_pair_string("oauth_timestamp", ts.as_str()));
    pieces.push(quoted_pair_string("oauth_token", token));
    pieces.push(quoted_pair_string("oauth_version", "1.0"));
    let fields = join_strings(&pieces, ", ");
    let mut r = "OAuth ".to_owned();
    r.append(fields.as_str());
    proof {
        let params = oauth_params(consumer_key@, nonce@, timestamp, token@);
        let signed = signed_params(params, signature@);
        assert(views(pieces@) =~= signed.map_values(|p: (Seq<char>, Seq<char>)| quoted_pair(p)));
    }
    Ok(r)
}


/// The `Authorization` header for one outbound request, signed with a fresh
/// nonce and the current time. The body takes no part in the signature.
pub fn create_oauth_header(
    method: &str,
    url: &str,
    consumer_key: &str,
    consumer_secret: &str,
    access_token: &str,
    access_token_secret: &str,
    _body: Option<&str>,
) -> (r: Result<String, SignError>)
    ensures
        r matches Ok(h) ==> exists|draws: Seq<usize>, timestamp: u64|
            draws.len() == NONCE_LEN && h@ == header_of(
                method@,
                url@,
                consumer_key@,
                consumer_secret@,
                access_token@,
                access_token_secret@,
                nonce_of(draws),
                timestamp,
            ),
        r matches Err(e) ==> e == SignError::ClockBeforeEpoch,
{
    let timestamp = match unix_seconds_now() {
        Some(t) => t,
        None => {
            return Err(SignError::ClockBeforeEpoch);
        },
    };
    let nonce = generate_nonce();
    create_oauth_header_at(
        method,
        url,
        consumer_key,
        consumer_secret,
        access_token,
        access_token_secret,
        nonce.as_str(),
        timestamp,
    )
}

/// Signing is deterministic: the same method, URL, four secrets, nonce and
/// timestamp give the same header, byte for byte, whatever strings carry them.
pub proof fn lemma_header_deterministic(
    method: (Seq<char>, Seq<char>),
    url: (Seq<char>, Seq<char>),
    consumer_key: (Seq<char>, Seq<char>),
    consumer_secret: (Seq<char>, Seq<char>),
    token: (Seq<char>, Seq<char>),
    token_secret: (Seq<char>, Seq<char>),
    nonce: (Seq<char>, Seq<char>),
    timestamp: (u64, u64),
)
    requires
        method.0 == method.1,
        url.0 == url.1,
        consumer_key.0 == consumer_key.1,
        consumer_secret.0 == consumer_secret.1,
        token.0 == token.1,
        token_secret.0 == token_secret.1,
        nonce.0 == nonce.1,
        timestamp.0 == timestamp.1,
    ensures
        header_of(
            method.0,
            url.0,
            consumer_key.0,
            consumer_secret.0,
            token.0,
            token_secret.0,
            nonce.0,
            timestamp.0,
        ) == header_of(
            method.1,
            url.1,
            consumer_key.1,
            consumer_secret.1,
            token.1,
            token_secret.1,
            nonce.1,
            timestamp.1,
        ),
{
}

/// Strict lexicographic order on texts, character by character.
pub open spec fn lex_lt(a: Seq<char>, b: Seq<char>) -> bool
    decreases a.len(),
{
    if b.len() == 0 {
        false
    } else if a.len() == 0 {
        true
    } else if a[0] != b[0] {
        a[0] < b[0]
    } else {
        lex_lt(a.drop_first(), b.drop_first())
    }
}

/// Each name is smaller than the next.
pub open spec fn names_ascending(params: Seq<(Seq<char>, Seq<char>)>) -> bool {
    forall|i: int| 0 <= i < params.len() - 1 ==> lex_lt(#[trigger] params[i].0, params[i + 1].0)
}

/// The signed parameters, and the header's seven with the signature among
/// them, stand in strictly ascending order of name: the order in which the
/// receiving side rebuilds the base string.
pub proof fn lemma_params_in_name_order(
    consumer_key: Seq<char>,
    nonce: Seq<char>,
    timestamp: u64,
    token: Seq<char>,
    signature: Seq<char>,
)
    ensures
        names_ascending(oauth_params(consumer_key, nonce, timestamp, token)),
        names_ascending(signed_params(oauth_params(consumer_key, nonce, timestamp, token), signature)),
{
    reveal_with_fuel(lex_lt, 17);
    reveal_strlit("oauth_consumer_key");
    reveal_strlit("oauth_nonce");
    reveal_strlit("oauth_signature");
    reveal_strlit("oauth_signature_method");
    reveal_strlit("oauth_timestamp");
    reveal_strlit("oauth_token");
    reveal_strlit("oauth_version");
    assert(lex_lt("oauth_consumer_key"@, "oauth_nonce"@));
    assert(lex_lt("oauth_nonce"@, "oauth_signature_method"@));
    assert(lex_lt("oauth_nonce"@, "oauth_signature"@));
    assert(lex_lt("oauth_signature"@, "oauth_signature_method"@));
    assert(lex_lt("oauth_signature_method"@, "oauth_timestamp"@));
    assert(lex_lt("oauth_timestamp"@, "oauth_token"@));
    assert(lex_lt("oauth_token"@, "oauth_version"@));
    let p = oauth_params(consumer_key, nonce, timestamp, token);
    let q = signed_params(p, signature);
    assert(q[2].0 == "oauth_signature"@);
    assert(q[3].0 == "oauth_signature_method"@);
}

} // verus!
