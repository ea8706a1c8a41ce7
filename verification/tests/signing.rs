//! Tests of the signed-request header building: percent-encoding, the
//! parameter assembly, and the HMAC-SHA1 signature.

use fb_web_server::auth_service::{ServiceConfig as AuthConfig, TwitterOauthConfig};
use fb_web_server::oauth::{build_header, encode, sign};
use fb_web_server::util::get_timestamp_string;

#[test]
fn percent_encoding_keeps_unreserved_bytes_only() {
    assert_eq!(encode("Ladies + Gentlemen"), "Ladies%20%2B%20Gentlemen");
    assert_eq!(encode("An encoded string!"), "An%20encoded%20string%21");
    assert_eq!(encode("Dogs, Cats & Mice"), "Dogs%2C%20Cats%20%26%20Mice");
    assert_eq!(encode("abc-._~XYZ019"), "abc-._~XYZ019");
    assert_eq!(encode(""), "");
    // Multi-byte characters are encoded byte by byte.
    assert_eq!(encode("\u{2603}"), "%E2%98%83");
}

#[test]
fn signature_matches_the_known_hmac_sha1_example() {
    // The widely published HMAC-SHA1 example: key "key" over the quick
    // brown fox sentence, base64-encoded.
    let signature = sign("The quick brown fox jumps over the lazy dog", "key");
    assert_eq!(signature, "3nybhbi3iqa8ino29wqQcBydtNk=");
}

#[test]
fn header_holds_the_signed_parameters() {
    let addtl = vec![("oauth_callback".to_string(), "https://example.test/cb".to_string())];
    let header = build_header("secret&", "consumer-key", "POST", "https://example.test/rt", &addtl);
    assert!(header.starts_with("OAuth "));
    assert!(header.contains("oauth_consumer_key=consumer-key"));
    assert!(header.contains("oauth_signature_method=HMAC-SHA1"));
    assert!(header.contains("oauth_version=1.0"));
    assert!(header.contains("oauth_nonce="));
    assert!(header.contains("oauth_timestamp="));
    assert!(header.contains("oauth_callback=https%3A%2F%2Fexample.test%2Fcb"));
    assert!(header.contains("oauth_signature="));
    // Parameters are sorted by name: the callback precedes the consumer key.
    let cb = header.find("oauth_callback").unwrap();
    let ck = header.find("oauth_consumer_key").unwrap();
    let nonce = header.find("oauth_nonce").unwrap();
    assert!(cb < ck && ck < nonce);
}

#[test]
fn two_headers_differ_in_their_nonce() {
    let addtl: Vec<(String, String)> = Vec::new();
    let one = build_header("secret&", "ck", "POST", "https://example.test/rt", &addtl);
    let two = build_header("secret&", "ck", "POST", "https://example.test/rt", &addtl);
    // The random nonce makes the signatures differ.
    assert_ne!(one, two);
}

#[test]
fn timestamps_are_decimal_digits() {
    let ts = get_timestamp_string();
    assert!(!ts.is_empty());
    assert!(ts.chars().all(|c| c.is_ascii_digit()));
}

#[test]
fn auth_config_exposes_its_parts() {
    let oauth = TwitterOauthConfig::new(
        "ck".to_string(),
        "cs".to_string(),
        "https://example.test/cb".to_string(),
    );
    let config = AuthConfig::new(oauth, "signing-secret".to_string());
    assert_eq!(config.jwt_signing_secret(), b"signing-secret");
    assert_eq!(config.twitter_oauth().consumer_key(), "ck");
    assert_eq!(config.twitter_oauth().consumer_secret(), "cs");
    assert_eq!(config.twitter_oauth().callback_url(), "https://example.test/cb");
}
