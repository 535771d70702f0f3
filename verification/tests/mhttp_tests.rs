use guardrail::mhttp::{
    check_body_size, check_content_length, check_status, collapse_whitespace, compress_html,
    ingest_report, spans_are_bounded, truncate_output, MAX_OUTPUT_CHARS, MAX_RAW_PAYLOAD_BYTES,
};

#[test]
fn test_collapse_whitespace_basic() {
    let input = "Hello\n\n\n\n\nWorld\n\n\nFoo";
    let result = collapse_whitespace(input);
    assert_eq!(result, "Hello\n\nWorld\n\nFoo");
}

#[test]
fn test_collapse_whitespace_preserves_single_blank() {
    let input = "Line 1\n\nLine 2";
    let result = collapse_whitespace(input);
    assert_eq!(result, "Line 1\n\nLine 2");
}

#[test]
fn test_collapse_whitespace_strips_trailing() {
    let input = "Content\n\n\n\n";
    let result = collapse_whitespace(input);
    assert_eq!(result, "Content");
}

#[test]
fn test_truncation() {
    let long_input = "x".repeat(60_000);
    let (result, _) = compress_html(&long_input).unwrap();
    assert!(result.len() <= MAX_OUTPUT_CHARS + 100); // +100 for truncation message
}

const NOTICE: &str = "\n\n[TRUNCATED — exceeded 50,000 character limit]";

#[test]
fn collapse_trims_lines_and_keeps_one_blank_line() {
    let input = "  alpha  \n\t\n \n   beta\t\n\n\n";
    assert_eq!(collapse_whitespace(input), "alpha\n\nbeta");
}

#[test]
fn collapse_of_blank_text_is_empty() {
    assert_eq!(collapse_whitespace(" \n\t\n  \n"), "");
    assert_eq!(collapse_whitespace(""), "");
}

#[test]
fn collapse_never_leaves_three_line_breaks() {
    let input = "a\n\n\n\n\nb\r\n\r\n\r\nc   \n";
    let out = collapse_whitespace(input);
    assert!(!out.contains("\n\n\n"));
    assert_eq!(out, "a\n\nb\n\nc");
}

#[test]
fn truncate_output_cuts_at_the_character_budget() {
    let text: Vec<char> = std::iter::repeat('x').take(60_000).collect();
    let (kept, n) = truncate_output(&text);
    let kept: String = kept.into_iter().collect();
    assert_eq!(n, MAX_OUTPUT_CHARS + 49);
    assert_eq!(kept.len(), n);
    assert!(kept.ends_with(NOTICE));
    assert_eq!(&kept[..MAX_OUTPUT_CHARS], "x".repeat(MAX_OUTPUT_CHARS));
}

#[test]
fn truncate_output_keeps_short_text() {
    let text: Vec<char> = "héllo".chars().collect();
    let (kept, n) = truncate_output(&text);
    assert_eq!(kept, text);
    assert_eq!(n, 6);
}

#[test]
fn truncate_output_keeps_fifty_thousand_wide_characters() {
    let text: Vec<char> = std::iter::repeat('é').take(MAX_OUTPUT_CHARS).collect();
    let (kept, n) = truncate_output(&text);
    assert_eq!(kept, text);
    assert_eq!(n, 2 * MAX_OUTPUT_CHARS);
}

#[test]
fn truncate_output_counts_characters_not_bytes() {
    let mut text: Vec<char> = vec!['a'];
    text.extend(std::iter::repeat('é').take(60_000));
    let (kept, n) = truncate_output(&text);
    let kept: String = kept.into_iter().collect();
    assert_eq!(kept.chars().count(), MAX_OUTPUT_CHARS + 47);
    assert!(kept.starts_with("aéé"));
    assert!(kept.ends_with(NOTICE));
    assert_eq!(n, 1 + 2 * (MAX_OUTPUT_CHARS - 1) + 49);
}

#[test]
fn compress_html_truncates_long_pages_exactly() {
    let long_input = "x".repeat(60_000);
    let (result, n) = compress_html(&long_input).unwrap();
    assert_eq!(n, result.len());
    assert_eq!(n, MAX_OUTPUT_CHARS + 49);
    assert!(result.ends_with(NOTICE));
}

#[test]
fn compress_html_strips_markup() {
    let html = "<html><head><title>T</title><style>p { color: red; }</style></head>\
                <body><p>Hello</p>\n\n\n<p>World</p></body></html>";
    let (text, n) = compress_html(html).unwrap();
    assert_eq!(n, text.len());
    assert!(text.contains("Hello"));
    assert!(text.contains("World"));
    assert!(!text.contains("<p>"));
    assert!(!text.contains("\n\n\n"));
    assert_eq!(text, text.trim_end());
}

#[test]
fn check_status_accepts_success_codes() {
    assert_eq!(check_status(200, Some("OK")), Ok(()));
    assert_eq!(check_status(299, None), Ok(()));
}

#[test]
fn check_status_rejects_other_codes() {
    assert_eq!(
        check_status(404, Some("Not Found")),
        Err("HTTP 404 — server rejected request: Not Found".to_string())
    );
    assert_eq!(
        check_status(503, None),
        Err("HTTP 503 — server rejected request: Unknown".to_string())
    );
    assert!(check_status(199, None).is_err());
    assert!(check_status(300, Some("Multiple Choices")).is_err());
}

#[test]
fn check_content_length_guards_the_limit() {
    assert_eq!(check_content_length(None), Ok(()));
    assert_eq!(check_content_length(Some(MAX_RAW_PAYLOAD_BYTES)), Ok(()));
    assert_eq!(
        check_content_length(Some(104_857_600)),
        Err("Payload too large: 104857600 bytes (limit: 10485760 bytes)".to_string())
    );
}

#[test]
fn check_body_size_guards_the_limit() {
    assert_eq!(check_body_size(10_485_760), Ok(()));
    assert_eq!(
        check_body_size(10_485_761),
        Err("Downloaded payload too large: 10485761 bytes (limit: 10485760 bytes)".to_string())
    );
}

#[test]
fn ingest_report_heads_the_text() {
    let r = ingest_report("https://example.org", 1000, 250, 75, "body text");
    assert_eq!(
        r,
        "[mHTTP] Source: https://example.org\n\
         [mHTTP] Raw HTML: 1000 bytes → Compressed: 250 bytes (75% reduction)\n\
         [mHTTP] ─────────────────────────────────────────────────────────\n\n\
         body text"
    );
}

#[test]
fn collapsing_twice_changes_nothing() {
    for input in ["\n\n  a \n\n\n b\t\n", "x\r\n\r\n\r\ny  \n\n", "", "\n", "  lone  "] {
        let once = collapse_whitespace(input);
        assert_eq!(collapse_whitespace(&once), once, "{:?}", input);
    }
}

#[test]
fn huge_colspans_are_refused_before_rendering() {
    let html = "<table><tr><td colspan=\"18446744073709551615\">a</td>\
                <td colspan=\"18446744073709551615\">b</td></tr></table>";
    assert!(!spans_are_bounded(html));
    assert_eq!(
        compress_html(html),
        Err("DOM parsing failed: colspan, rowspan or list start values are too large".to_string())
    );
}

#[test]
fn ordinary_tables_and_lists_are_rendered() {
    let html = "<table><tr><td COLSPAN = '2'>wide</td></tr><tr><td>a</td><td rowspan=3>b</td></tr></table>\
                <ol start=\"5\"><li>five</li><li>six</li></ol>";
    assert!(spans_are_bounded(html));
    let (text, n) = compress_html(html).unwrap();
    assert_eq!(n, text.len());
    assert!(text.contains("wide"));
    assert!(text.contains("six"));
}

#[test]
fn numbers_built_from_references_or_too_long_are_refused() {
    assert!(!spans_are_bounded("<td colspan=\"1&#48;\">x</td>"));
    assert!(!spans_are_bounded("<ol start=-1000000000><li>a</ol>"));
    assert!(spans_are_bounded("<ol start=-999999999><li>a</ol>"));
    assert!(spans_are_bounded("<td colspan=\"0000000000007\">x</td>"));
    assert!(spans_are_bounded("Getting started: restart the server."));
}
