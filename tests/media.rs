use ktv_casting::utils::extract_bv_id;
use ktv_casting::media_server::{response_headers, upstream_request_headers, BROWSER_USER_AGENT};
use ktv_casting::media_server::{
    content_range, decode_proxy_path, forwards_header, mime_type_for_extension,
    mime_type_for_lowercase, parse_range, range_len, ProxyTarget, Range,
};

#[test]
fn range_plain() {
    assert_eq!(parse_range("bytes=0-499", 1000), Some(Range { start: 0, end: 499 }));
    assert_eq!(parse_range("bytes=0-1023", 5000), Some(Range { start: 0, end: 1023 }));
}

#[test]
fn range_open_end() {
    assert_eq!(parse_range("bytes=500-", 1000), Some(Range { start: 500, end: 999 }));
}

#[test]
fn range_end_past_file_is_cut() {
    assert_eq!(parse_range("bytes=10-5000", 1000), Some(Range { start: 10, end: 999 }));
}

#[test]
fn range_suffix_form() {
    assert_eq!(parse_range("bytes=-100", 1000), Some(Range { start: 900, end: 999 }));
    assert_eq!(parse_range("bytes=-900", 1000), Some(Range { start: 100, end: 999 }));
    assert_eq!(parse_range("bytes=-1000", 1000), Some(Range { start: 0, end: 999 }));
    assert_eq!(parse_range("bytes=-2000", 1000), Some(Range { start: 0, end: 999 }));
    assert_eq!(parse_range("bytes=-0", 1000), None);
    assert_eq!(parse_range("bytes=-", 1000), None);
    assert_eq!(parse_range("bytes=-x", 1000), None);
}

#[test]
fn range_rejected() {
    assert_eq!(parse_range("items=0-1", 1000), None);
    assert_eq!(parse_range("bytes=5", 1000), None);
    assert_eq!(parse_range("bytes=900-100", 1000), None);
    assert_eq!(parse_range("bytes=1000-", 1000), None);
    assert_eq!(parse_range("bytes=0-0", 0), None);
}

#[test]
fn range_unreadable_numbers() {
    assert_eq!(parse_range("bytes=x-10", 1000), Some(Range { start: 0, end: 10 }));
    assert_eq!(parse_range("bytes=5-y", 1000), Some(Range { start: 5, end: 999 }));
}

#[test]
fn content_range_header() {
    let r = Range { start: 0, end: 1023 };
    assert_eq!(content_range(&r, 5000), "bytes 0-1023/5000");
    assert_eq!(range_len(&r), 1024);
}

#[test]
fn mime_types() {
    assert_eq!(mime_type_for_lowercase("mp4"), "video/mp4");
    assert_eq!(mime_type_for_lowercase("mkv"), "video/x-matroska");
    assert_eq!(mime_type_for_lowercase("vob"), "video/mpeg");
    assert_eq!(mime_type_for_lowercase("m2ts"), "video/mp2t");
    assert_eq!(mime_type_for_lowercase("txt"), "video/*");
}

#[test]
fn mime_type_ignores_case() {
    assert_eq!(mime_type_for_extension("MP4"), "video/mp4");
    assert_eq!(mime_type_for_extension("WebM"), "video/webm");
    assert_eq!(mime_type_for_extension(""), "video/*");
}

#[test]
fn proxy_path_with_page() {
    assert_eq!(
        decode_proxy_path("/BV1xx411c7mD-page2"),
        ProxyTarget { bvid: "BV1xx411c7mD".to_string(), page: Some(2) }
    );
}

#[test]
fn proxy_path_without_page() {
    assert_eq!(
        decode_proxy_path("/BV1xx411c7mD"),
        ProxyTarget { bvid: "BV1xx411c7mD".to_string(), page: None }
    );
    assert_eq!(
        decode_proxy_path("BVq-pagex"),
        ProxyTarget { bvid: "BVq-pagex".to_string(), page: None }
    );
}

#[test]
fn hop_headers_are_not_forwarded() {
    assert!(!forwards_header("Transfer-Encoding"));
    assert!(!forwards_header("connection"));
    assert!(!forwards_header("CONTENT-ENCODING"));
    assert!(forwards_header("Content-Range"));
    assert!(forwards_header("Content-Length"));
}

#[test]
fn proxy_forwards_range_with_cookie() {
    let target = decode_proxy_path("/BV1xx411c7mD-page2");
    assert_eq!(target.bvid, "BV1xx411c7mD");
    assert_eq!(target.page, Some(2));
    let required = vec![("Cookie".to_string(), "x".to_string())];
    let sent = upstream_request_headers(&required, Some("bytes=0-1023"));
    assert_eq!(
        sent,
        vec![
            ("Cookie".to_string(), "x".to_string()),
            ("User-Agent".to_string(), BROWSER_USER_AGENT.to_string()),
            ("Referer".to_string(), "https://www.bilibili.com".to_string()),
            ("Range".to_string(), "bytes=0-1023".to_string()),
        ]
    );
    let upstream = vec![
        ("Content-Type".to_string(), "video/mp4".to_string()),
        ("Transfer-Encoding".to_string(), "chunked".to_string()),
        ("Content-Range".to_string(), "bytes 0-1023/5000".to_string()),
        ("Connection".to_string(), "keep-alive".to_string()),
    ];
    assert_eq!(
        response_headers(&upstream),
        vec![
            ("Content-Type".to_string(), "video/mp4".to_string()),
            ("Content-Range".to_string(), "bytes 0-1023/5000".to_string()),
        ]
    );
}

#[test]
fn upstream_headers_without_range() {
    let sent = upstream_request_headers(&vec![], None);
    assert_eq!(sent.len(), 2);
    assert_eq!(sent[0].0, "User-Agent");
    assert_eq!(sent[1].0, "Referer");
}

#[test]
fn proxy_path_decodes_key() {
    let key = extract_bv_id("bilibili://video/BV1Q4411y7Xz?page=12");
    assert_eq!(
        decode_proxy_path(&format!("/{}", key)),
        ProxyTarget { bvid: "BV1Q4411y7Xz".to_string(), page: Some(12) }
    );
    let key = extract_bv_id("bilibili://video/BV1Q4411y7Xz");
    assert_eq!(
        decode_proxy_path(&format!("/{}", key)),
        ProxyTarget { bvid: "BV1Q4411y7Xz".to_string(), page: None }
    );
}
