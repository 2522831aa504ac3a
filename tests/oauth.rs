use tweet_stream::{
    generate_nonce, header, header_with, keywords_concat, sign_base_string, stream_request,
    url_encode, Credentials, STREAM_API_URL,
};

fn creds() -> Credentials {
    Credentials {
        consumer_key: "ck".to_string(),
        consumer_key_secret: "cks".to_string(),
        token: "tok".to_string(),
        token_secret: "toks".to_string(),
    }
}

const TRACK: &str = "twitter,facebook,google,travel,art,music,photography,love,fashion,food";

#[test]
fn percent_encoding_set() {
    assert_eq!(url_encode("track"), "track");
    assert_eq!(url_encode("a b,c"), "a%20b%2Cc");
    assert_eq!(url_encode("https://x/y?q=1&r"), "https%3A%2F%2Fx%2Fy%3Fq%3D1%26r");
    assert_eq!(url_encode("%\"<>`#@"), "%25%22%3C%3E%60%23%40");
    assert_eq!(url_encode("é\t~-_."), "%C3%A9%09~-_.");
    assert_eq!(url_encode(""), "");
}

#[test]
fn signature_of_base_string() {
    assert_eq!(sign_base_string("cs", "ts", "POST&x"), "KrizHuIQUdEi6PSwpRXeWm30tdI%3D");
}

#[test]
fn header_with_fixed_nonce_and_time() {
    let h = header_with(
        &creds(),
        "POST",
        STREAM_API_URL,
        ("track", TRACK),
        "0123456789abcdef0123456789abcdef",
        "1600000000",
    );
    assert_eq!(
        h,
        "OAuth oauth_consumer_key=\"ck\", oauth_nonce=\"0123456789abcdef0123456789abcdef\", \
         oauth_signature=\"AZFkFy2SwFVA174KbYf4wTgfRL0%3D\", oauth_signature_method=\"HMAC-SHA1\", \
         oauth_timestamp=\"1600000000\", oauth_token=\"tok\", oauth_version=\"1.0\""
    );
}

#[test]
fn header_is_deterministic() {
    let a = header_with(&creds(), "POST", "https://a/b", ("k", "v w"), "n", "1");
    let b = header_with(&creds(), "POST", "https://a/b", ("k", "v w"), "n", "1");
    assert_eq!(a, b);
    let c = header_with(&creds(), "POST", "https://a/b", ("k", "v w"), "n", "2");
    assert_ne!(a, c);
}

#[test]
fn fresh_header_shape() {
    let h = header(&creds(), "POST", STREAM_API_URL, ("track", TRACK)).unwrap();
    assert!(h.starts_with("OAuth oauth_consumer_key=\"ck\", oauth_nonce=\""));
    assert!(h.contains("oauth_signature=\""));
    assert!(!h.contains("track"));
}

#[test]
fn nonce_is_32_hex_digits() {
    let n = generate_nonce().unwrap();
    assert_eq!(n.len(), 32);
    assert!(n.chars().all(|c| c.is_ascii_hexdigit() && !c.is_ascii_uppercase()));
}

#[test]
fn track_list_and_url() {
    assert_eq!(keywords_concat(), TRACK);
    let (url, h) = stream_request(&creds()).unwrap();
    assert_eq!(url, format!("{}?track={}", STREAM_API_URL, TRACK));
    assert!(h.starts_with("OAuth "));
}
