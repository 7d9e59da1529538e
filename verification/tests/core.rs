// The query decoder, escaping, configuration parsing and status rendering,
// exercised on concrete values.

use logproxy::decode_query;
use logproxy::text::escape;
use logproxy::render::status_text;
use logproxy::render::render_pairs;
use logproxy::Pair;
use logproxy::PrintStyle;
use logproxy::LogLevel;
use logproxy::find_header;

#[test]
fn query_two_pairs() {
    let pairs = decode_query("k1=v1&k2=v2");
    assert_eq!(pairs.len(), 2);
    assert_eq!(pairs[0].name, "k1");
    assert_eq!(pairs[0].value, "v1");
    assert_eq!(pairs[1].name, "k2");
    assert_eq!(pairs[1].value, "v2");
}

#[test]
fn query_empty_segments_ignored() {
    let pairs = decode_query("a=1&&b=2");
    assert_eq!(pairs.len(), 2);
    assert_eq!(pairs[0].name, "a");
    assert_eq!(pairs[0].value, "1");
    assert_eq!(pairs[1].name, "b");
    assert_eq!(pairs[1].value, "2");
}

#[test]
fn query_key_without_eq_gets_empty_value() {
    let pairs = decode_query("flag");
    assert_eq!(pairs.len(), 1);
    assert_eq!(pairs[0].name, "flag");
    assert_eq!(pairs[0].value, "");
}

#[test]
fn query_duplicate_key_last_value_wins() {
    let pairs = decode_query("a=1&a=2");
    assert_eq!(pairs.len(), 1);
    assert_eq!(pairs[0].name, "a");
    assert_eq!(pairs[0].value, "2");
}

#[test]
fn query_empty_string_decodes_to_nothing() {
    let pairs = decode_query("");
    assert_eq!(pairs.len(), 0);
}

#[test]
fn query_value_keeps_later_eq_signs() {
    let pairs = decode_query("a=b=c");
    assert_eq!(pairs.len(), 1);
    assert_eq!(pairs[0].name, "a");
    assert_eq!(pairs[0].value, "b=c");
}

#[test]
fn escape_quotes_backslashes_and_newlines() {
    assert_eq!(escape("a\"b\\c\nd"), "a\\\"b\\\\c\\nd");
}

#[test]
fn escape_control_characters_as_hex() {
    assert_eq!(escape("\u{1}\u{1f}"), "\\u0001\\u001f");
}

#[test]
fn escape_plain_text_unchanged() {
    assert_eq!(escape("status=open"), "status=open");
}

#[test]
fn render_pairs_compact() {
    let pairs = vec![
        Pair { name: "host".to_string(), value: "localhost".to_string() },
        Pair { name: "a".to_string(), value: "b".to_string() },
    ];
    assert_eq!(render_pairs(&pairs, false), "{\"host\": \"localhost\", \"a\": \"b\"}");
}

#[test]
fn render_pairs_pretty() {
    let pairs = vec![Pair { name: "status".to_string(), value: "open".to_string() }];
    assert_eq!(render_pairs(&pairs, true), "{\n  \"status\": \"open\"\n}");
}

#[test]
fn render_pairs_pretty_empty() {
    let pairs: Vec<Pair> = Vec::new();
    assert_eq!(render_pairs(&pairs, true), "{}");
    assert_eq!(render_pairs(&pairs, false), "{}");
}

#[test]
fn status_text_decimal() {
    assert_eq!(status_text(200), "200");
    assert_eq!(status_text(0), "0");
    assert_eq!(status_text(65535), "65535");
}

#[test]
fn print_style_parses_canonical_names() {
    assert!(matches!(PrintStyle::parse("pretty"), Some(PrintStyle::Pretty)));
    assert!(matches!(PrintStyle::parse("plain"), Some(PrintStyle::Plain)));
    assert!(matches!(PrintStyle::parse("json"), Some(PrintStyle::Json)));
    assert!(PrintStyle::parse("yaml").is_none());
    assert!(PrintStyle::parse("Pretty").is_none());
}

#[test]
fn print_style_names_round_trip() {
    assert_eq!(PrintStyle::from("pretty").to_str(), "pretty");
    assert_eq!(PrintStyle::from("plain").to_str(), "plain");
    assert_eq!(PrintStyle::from("json").to_str(), "json");
}

#[test]
fn log_level_parses_without_regard_to_case() {
    assert!(matches!(LogLevel::parse("critical"), Some(LogLevel::Critical)));
    assert!(matches!(LogLevel::parse("NORMAL"), Some(LogLevel::Normal)));
    assert!(matches!(LogLevel::parse("Debug"), Some(LogLevel::Debug)));
    assert!(matches!(LogLevel::parse("off"), Some(LogLevel::Off)));
    assert!(LogLevel::parse("verbose").is_none());
}

#[test]
fn log_level_filter_directives() {
    assert_eq!(LogLevel::Critical.filter_directive(), "warn,hyper=off,rustls=off");
    assert_eq!(LogLevel::Normal.filter_directive(), "info,hyper=off,rustls=off");
    assert_eq!(LogLevel::Debug.filter_directive(), "trace");
    assert_eq!(LogLevel::Off.filter_directive(), "off");
}

#[test]
fn find_header_first_match_wins() {
    let headers = vec![
        Pair { name: "accept".to_string(), value: "text/html".to_string() },
        Pair { name: "x-request-id".to_string(), value: "one".to_string() },
        Pair { name: "x-request-id".to_string(), value: "two".to_string() },
    ];
    assert_eq!(find_header(&headers, "x-request-id"), Some("one".to_string()));
    assert_eq!(find_header(&headers, "x-missing"), None);
}
