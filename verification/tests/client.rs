use agentim::client::{
    auth_header_from_jwt, base_url, history_path, jwt_fresh, replace_all, token_expiry, urlencod,
    ws_url,
};

#[test]
fn urlencod_keeps_unreserved_and_escapes_the_rest() {
    assert_eq!(urlencod("abc-XYZ_0.9~"), "abc-XYZ_0.9~");
    assert_eq!(urlencod("a b&c"), "a%20b%26c");
    assert_eq!(urlencod("é"), "%C3%A9");
    assert_eq!(urlencod(""), "");
}

#[test]
fn base_url_drops_trailing_slashes() {
    assert_eq!(base_url("http://localhost:8900//"), "http://localhost:8900");
    assert_eq!(base_url("http://localhost:8900"), "http://localhost:8900");
}

#[test]
fn auth_header_is_bearer() {
    assert_eq!(auth_header_from_jwt("tok"), "Bearer tok");
}

#[test]
fn history_paths_carry_paging() {
    assert_eq!(history_path("/api/messages/with/bob", Some(10), Some("m1")), "/api/messages/with/bob?limit=10&before=m1");
    assert_eq!(history_path("/p", Some(5), None), "/p?limit=5");
    assert_eq!(history_path("/p", None, Some("x")), "/p?before=x");
    assert_eq!(history_path("/p", None, None), "/p");
}

#[test]
fn ws_url_switches_scheme_and_encodes_token() {
    assert_eq!(ws_url("https://im.example.com", "a.b+c"), "wss://im.example.com/ws?token=a.b%2Bc");
    assert_eq!(ws_url("http://localhost:8900", "t"), "ws://localhost:8900/ws?token=t");
}

#[test]
fn replace_all_replaces_each_occurrence() {
    assert_eq!(replace_all("aXbXc", "X", "--"), "a--b--c");
    assert_eq!(replace_all("aaa", "aa", "b"), "ba");
}

#[test]
fn cached_token_margin() {
    let exp = 1_000_000_000;
    assert!(jwt_fresh(exp, exp - 31_000_000));
    assert!(!jwt_fresh(exp, exp - 30_000_000));
}

#[test]
fn token_expiry_defaults_to_nine_minutes() {
    assert_eq!(token_expiry(Some("1970-01-01T00:00:01Z"), 0), 1_000_000);
    assert_eq!(token_expiry(None, 5), 5 + 540_000_000);
    assert_eq!(token_expiry(Some("bad"), 5), 5 + 540_000_000);
}

fn percent_decode(s: &str) -> Vec<u8> {
    let b = s.as_bytes();
    let mut out = Vec::new();
    let mut i = 0;
    while i < b.len() {
        if b[i] == b'%' {
            out.push(u8::from_str_radix(&s[i + 1..i + 3], 16).unwrap());
            i += 3;
        } else {
            out.push(b[i]);
            i += 1;
        }
    }
    out
}

#[test]
fn urlencod_decodes_back_to_the_bytes() {
    for s in ["meeting notes", "a+b=c&d", "héllo wörld ✓", "%41", ""] {
        assert_eq!(percent_decode(&urlencod(s)), s.as_bytes());
    }
}
