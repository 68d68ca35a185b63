use agentim::client::{capped_limit, failure_message};
use agentim::stamps::{age_label, clip, format_time, format_timestamp, timestamp_label, Stamp};

const NOON: i64 = 1_704_110_400_000_000; // 2024-01-01T12:00:00Z

fn text_of(s: Stamp) -> String {
    match s {
        Stamp::Text(t) => t,
        Stamp::Local(t) => panic!("expected text, got local instant {}", t),
    }
}

#[test]
fn age_label_steps() {
    assert_eq!(age_label(0).unwrap(), "just now");
    assert_eq!(age_label(-5_000_000).unwrap(), "just now");
    assert_eq!(age_label(59_999_999).unwrap(), "just now");
    assert_eq!(age_label(60_000_000).unwrap(), "1 min ago");
    assert_eq!(age_label(3_599_999_999).unwrap(), "59 min ago");
    assert_eq!(age_label(3_600_000_000).unwrap(), "1 hours ago");
    assert_eq!(age_label(86_399_999_999).unwrap(), "23 hours ago");
    assert_eq!(age_label(86_400_000_000).unwrap(), "1 days ago");
    assert_eq!(age_label(6 * 86_400_000_000 + 5).unwrap(), "6 days ago");
    assert!(age_label(7 * 86_400_000_000).is_none());
}

#[test]
fn timestamp_label_cases() {
    assert_eq!(text_of(timestamp_label(None, NOON)), "-");
    assert_eq!(
        text_of(timestamp_label(Some("2024-01-01T11:58:30Z"), NOON)),
        "1 min ago"
    );
    assert_eq!(
        text_of(timestamp_label(Some("2024-01-01T09:00:00Z"), NOON)),
        "3 hours ago"
    );
    assert_eq!(
        text_of(timestamp_label(Some("2023-12-30T12:00:00+00:00"), NOON)),
        "2 days ago"
    );
    assert_eq!(
        text_of(timestamp_label(Some("2024-01-01T12:05:00Z"), NOON)),
        "just now"
    );
    match timestamp_label(Some("2023-12-20T12:00:00Z"), NOON) {
        Stamp::Local(t) => assert_eq!(t, NOON - 12 * 86_400_000_000),
        Stamp::Text(t) => panic!("expected local instant, got {}", t),
    }
    assert_eq!(
        text_of(timestamp_label(Some("not a timestamp at all, really"), NOON)),
        "not a timestamp at "
    );
    assert_eq!(text_of(timestamp_label(Some("short"), NOON)), "short");
}

#[test]
fn format_timestamp_without_stamp() {
    assert_eq!(text_of(format_timestamp(None)), "-");
    assert_eq!(text_of(format_timestamp(Some("1970"))), "1970");
}

#[test]
fn format_time_cases() {
    assert_eq!(text_of(format_time(None)), "??:??");
    assert_eq!(text_of(format_time(Some("yesterday around noon"))), "yesterday around");
    match format_time(Some("2024-01-01T12:00:00Z")) {
        Stamp::Local(t) => assert_eq!(t, NOON),
        Stamp::Text(t) => panic!("expected local instant, got {}", t),
    }
}

#[test]
fn clip_counts_characters() {
    assert_eq!(clip("héllo wörld", 7), "héllo w");
    assert_eq!(clip("abc", 10), "abc");
    assert_eq!(clip("", 3), "");
}

#[test]
fn capped_limit_at_twenty() {
    assert_eq!(capped_limit(5), 5);
    assert_eq!(capped_limit(20), 20);
    assert_eq!(capped_limit(500), 20);
}

#[test]
fn failure_message_prefers_error_field() {
    assert_eq!(
        failure_message(404, Some("agent not found"), "{\"error\":\"agent not found\"}"),
        "HTTP 404 \u{2014} agent not found"
    );
    assert_eq!(
        failure_message(502, None, "Bad Gateway"),
        "HTTP 502 \u{2014} Bad Gateway"
    );
}
