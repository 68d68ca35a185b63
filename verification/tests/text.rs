use agentim::frontend::{asset_path, content_type, index_path};
use agentim::text::{blank, decimal_string, trim};

#[test]
fn trim_matches_str_trim() {
    for s in ["  a b  ", "\u{3000}x\u{2003}", "", "   ", "x", "\tq\r\n"] {
        assert_eq!(trim(s), s.trim());
        assert_eq!(blank(s), s.trim().is_empty());
    }
}

#[test]
fn decimal_strings() {
    assert_eq!(decimal_string(0), "0");
    assert_eq!(decimal_string(6), "6");
    assert_eq!(decimal_string(1234567890), "1234567890");
}

#[test]
fn frontend_paths() {
    assert_eq!(asset_path("//dashboard/"), "dashboard/");
    assert_eq!(index_path(""), "index.html");
    assert_eq!(index_path("dashboard/"), "dashboard/index.html");
    assert_eq!(index_path("dashboard"), "dashboard/index.html");
    assert_eq!(content_type("index.html"), "text/html");
    assert_eq!(content_type("blob"), "application/octet-stream");
}
