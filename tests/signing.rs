use twilia::oauth::{
    create_oauth_header, create_oauth_header_at, generate_nonce, nonce_from_draws, parameter_string,
    signature_base_string, sign, signing_key, SignError,
};
use twilia::percent::url_encode;
use twilia::text::decimal_string;

const URL: &str = "https://api.twitter.com/2/tweets";

fn nonce_n() -> String {
    "N".repeat(32)
}

#[test]
fn percent_encoding_escapes_space_and_ampersand() {
    assert_eq!(url_encode("a b&c"), "a%20b%26c");
}

#[test]
fn percent_encoding_keeps_unreserved_characters() {
    assert_eq!(url_encode("AZaz09-._~"), "AZaz09-._~");
    assert_eq!(url_encode(""), "");
}

#[test]
fn percent_encoding_escapes_each_utf8_byte() {
    assert_eq!(url_encode("é~-._"), "%C3%A9~-._");
    assert_eq!(url_encode("https://x/y?z=1"), "https%3A%2F%2Fx%2Fy%3Fz%3D1");
}

#[test]
fn decimal_rendering() {
    assert_eq!(decimal_string(0), "0");
    assert_eq!(decimal_string(1700000000), "1700000000");
    assert_eq!(decimal_string(u64::MAX), "18446744073709551615");
}

#[test]
fn golden_parameter_string() {
    assert_eq!(
        parameter_string("CK", &nonce_n(), 1700000000, "TK"),
        "oauth_consumer_key=CK&oauth_nonce=NNNNNNNNNNNNNNNNNNNNNNNNNNNNNNNN&oauth_signature_method=HMAC-SHA1&oauth_timestamp=1700000000&oauth_token=TK&oauth_version=1.0"
    );
}

#[test]
fn golden_base_string() {
    assert_eq!(
        signature_base_string("POST", URL, "CK", &nonce_n(), 1700000000, "TK"),
        "POST&https%3A%2F%2Fapi.twitter.com%2F2%2Ftweets&oauth_consumer_key%3DCK%26oauth_nonce%3DNNNNNNNNNNNNNNNNNNNNNNNNNNNNNNNN%26oauth_signature_method%3DHMAC-SHA1%26oauth_timestamp%3D1700000000%26oauth_token%3DTK%26oauth_version%3D1.0"
    );
}

#[test]
fn signing_key_encodes_both_secrets() {
    assert_eq!(signing_key("CS", "TS"), "CS&TS");
    assert_eq!(signing_key("c s&", "t/s"), "c%20s%26&t%2Fs");
}

#[test]
fn golden_signature() {
    let s = sign("POST", URL, "CK", "CS", "TK", "TS", &nonce_n(), 1700000000);
    assert_eq!(s, Ok("oj2Jmv4L3hmKauhSHynSIFRd8qQ=".to_string()));
}

#[test]
fn golden_header() {
    let h = create_oauth_header_at("POST", URL, "CK", "CS", "TK", "TS", &nonce_n(), 1700000000);
    assert_eq!(
        h,
        Ok("OAuth oauth_consumer_key=\"CK\", oauth_nonce=\"NNNNNNNNNNNNNNNNNNNNNNNNNNNNNNNN\", oauth_signature=\"oj2Jmv4L3hmKauhSHynSIFRd8qQ%3D\", oauth_signature_method=\"HMAC-SHA1\", oauth_timestamp=\"1700000000\", oauth_token=\"TK\", oauth_version=\"1.0\"".to_string())
    );
}

#[test]
fn header_is_deterministic_for_fixed_nonce_and_time() {
    let a = create_oauth_header_at("POST", URL, "key", "secret", "tok", "toks", "abc123", 42);
    let b = create_oauth_header_at("POST", URL, "key", "secret", "tok", "toks", "abc123", 42);
    assert!(a.is_ok());
    assert_eq!(a, b);
    let c = create_oauth_header_at("POST", URL, "key", "secret", "tok", "toks", "abc123", 43);
    assert_ne!(a, c);
}

#[test]
fn nonce_is_32_alphanumerics() {
    let n = generate_nonce();
    assert_eq!(n.chars().count(), 32);
    assert!(n.chars().all(|c| c.is_ascii_alphanumeric()));
    assert_ne!(generate_nonce(), generate_nonce());
}

#[test]
fn live_header_has_seven_fields() {
    let h = create_oauth_header("POST", URL, "CK", "CS", "TK", "TS", Some("{\"text\":\"hi\"}")).unwrap();
    assert!(h.starts_with("OAuth oauth_consumer_key=\"CK\", oauth_nonce=\""));
    assert_eq!(h.matches("=\"").count(), 7);
    assert!(h.contains("oauth_signature_method=\"HMAC-SHA1\""));
    assert!(h.ends_with("oauth_token=\"TK\", oauth_version=\"1.0\""));
}

#[test]
fn sign_error_messages() {
    assert!(SignError::ClockBeforeEpoch.message().contains("Unix epoch"));
    assert!(SignError::KeyRejected.message().starts_with("HMAC"));
}

#[test]
fn nonce_characters_follow_the_draws() {
    assert_eq!(nonce_from_draws(&vec![0, 61, 62, 26, 52, 123]), "a9aA09");
    assert_eq!(nonce_from_draws(&vec![]), "");
}
