//! Decisions of the media proxy: byte ranges, content types, request paths and headers.
use crate::text::{
    all_digits, ascii_lower, ascii_lower_exec, chars_eq, chars_of, decimal_text, decimal_value,
    find_exec, find_from, is_ascii_digit, lemma_find_from_occurs, parse_u64,
    parse_u64_spec, push_decimal, slice_chars, starts_with, starts_with_exec, str_eq,
    string_from_chars,
};
use crate::utils::{
    is_alnum, key_of, lemma_key_of_reference, reference_key, valid_reference_parts, video_reference,
};
use vstd::prelude::*;

verus! {

/// An inclusive byte range of a file.
#[derive(Debug, PartialEq, Eq, Structural, Clone, Copy)]
pub struct Range {
    pub start: u64,
    pub end: u64,
}

pub open spec fn bytes_unit() -> Seq<char> {
    seq!['b', 'y', 't', 'e', 's', '=']
}

/// The number a text reads as, or `d` where it reads as none.
pub open spec fn number_or(s: Seq<char>, d: int) -> int {
    match parse_u64_spec(s) {
        Some(v) => v as int,
        None => d,
    }
}

/// The range that a `Range` header asks of a file of `size` bytes.
///
/// After `bytes=`, the text splits at its first `-`. With an empty start, the end is a count
/// `n` of bytes: the range is the last `n` bytes (the whole file when `n` exceeds it), and
/// none when `n` is 0 or cannot be read. Otherwise the start is read (0 when it cannot be),
/// and an end missing, unreadable or past the file stops at the last byte.
pub open spec fn range_of(s: Seq<char>, size: nat) -> Option<(int, int)> {
    if !starts_with(s, bytes_unit()) {
        None
    } else {
        let rest = s.subrange(6, s.len() as int);
        match find_from(rest, seq!['-'], 0) {
            None => None,
            Some(d) => {
                let start_text = rest.subrange(0, d);
                let end_text = rest.subrange(d + 1, rest.len() as int);
                if start_text.len() == 0 {
                    let n = number_or(end_text, 0);
                    if n == 0 || size == 0 {
                        None
                    } else {
                        Some((if n > size { 0 } else { size - n }, size - 1))
                    }
                } else {
                    let start = number_or(start_text, 0);
                    let end = if end_text.len() == 0 {
                        size - 1
                    } else {
                        let e = number_or(end_text, size - 1);
                        if e >= size { size - 1 } else { e }
                    };
                    if start <= end && end < size {
                        Some((start, end))
                    } else {
                        None
                    }
                }
            },
        }
    }
}

/// Reads a `Range` header against a file of `file_size` bytes.
pub fn parse_range(range_str: &str, file_size: u64) -> (r: Option<Range>)
    ensures
        match r {
            Some(g) => range_of(range_str@, file_size as nat) == Some((g.start as int, g.end as int)),
            None => range_of(range_str@, file_size as nat) is None,
        },
{
    let s = chars_of(range_str);
    let unit: Vec<char> = vec!['b', 'y', 't', 'e', 's', '='];
    assert(unit@ =~= bytes_unit());
    if !starts_with_exec(&s, &unit) {
        return None;
    }
    let rest = slice_chars(&s, 6, s.len());
    let dash: Vec<char> = vec!['-'];
    assert(dash@ =~= seq!['-']);
    proof {
        lemma_find_from_occurs(rest@, dash@, 0);
    }
    let d = match find_exec(&rest, &dash) {
        Some(d) => d,
        None => {
            return None;
        },
    };
    if file_size == 0 {
        return None;
    }
    let start_text = slice_chars(&rest, 0, d);
    let end_text = slice_chars(&rest, d + 1, rest.len());
    if start_text.len() == 0 {
        let n = match parse_u64(&end_text) {
            Some(v) => v,
            None => 0,
        };
        if n == 0 {
            return None;
        }
        let start = if n > file_size { 0 } else { file_size - n };
        return Some(Range { start, end: file_size - 1 });
    }
    let start: u64 = match parse_u64(&start_text) {
        Some(v) => v,
        None => 0,
    };
    let end: u64 = if end_text.len() == 0 {
        file_size - 1
    } else {
        let e = match parse_u64(&end_text) {
            Some(v) => v,
            None => file_size - 1,
        };
        if e >= file_size { file_size - 1 } else { e }
    };
    if start <= end && end < file_size {
        Some(Range { start, end })
    } else {
        None
    }
}

/// The value of a `Content-Range` header: `bytes <start>-<end>/<size>`.
pub open spec fn content_range_text(start: nat, end: nat, size: nat) -> Seq<char> {
    seq!['b', 'y', 't', 'e', 's', ' '] + decimal_text(start) + seq!['-'] + decimal_text(end)
        + seq!['/'] + decimal_text(size)
}

/// The `Content-Range` header that answers a range of a file of `file_size` bytes.
pub fn content_range(range: &Range, file_size: u64) -> (r: String)
    ensures
        r@ == content_range_text(range.start as nat, range.end as nat, file_size as nat),
{
    let mut v: Vec<char> = vec!['b', 'y', 't', 'e', 's', ' '];
    push_decimal(&mut v, range.start);
    v.push('-');
    push_decimal(&mut v, range.end);
    v.push('/');
    push_decimal(&mut v, file_size);
    assert(v@ =~= content_range_text(range.start as nat, range.end as nat, file_size as nat));
    string_from_chars(&v)
}

/// Number of bytes in a range: `end - start + 1`.
pub fn range_len(range: &Range) -> (r: u64)
    requires
        range.start <= range.end < u64::MAX,
    ensures
        r as int == range.end - range.start + 1,
{
    range.end - range.start + 1
}

// ---------------------------------------------------------------------------
// Content types.

pub uninterp spec fn lower_of(s: Seq<char>) -> Seq<char>;

/// Relies on `str::to_lowercase`: the result depends on the characters alone, and an empty
/// text stays empty.
#[verifier::external_body]
fn lowercase(s: &str) -> (r: String)
    ensures
        r@ == lower_of(s@),
        s@.len() == 0 ==> r@.len() == 0,
{
    s.to_lowercase()
}

/// The content type served for a file extension already in lower case.
pub open spec fn mime_for(e: Seq<char>) -> Seq<char> {
    if e == "mp4"@ || e == "m4v"@ || e == "mov"@ {
        "video/mp4"@
    } else if e == "mkv"@ {
        "video/x-matroska"@
    } else if e == "avi"@ {
        "video/x-msvideo"@
    } else if e == "wmv"@ {
        "video/x-ms-wmv"@
    } else if e == "mpg"@ || e == "mpeg"@ || e == "vob"@ {
        "video/mpeg"@
    } else if e == "flv"@ {
        "video/x-flv"@
    } else if e == "webm"@ {
        "video/webm"@
    } else if e == "ts"@ || e == "m2ts"@ {
        "video/mp2t"@
    } else {
        "video/*"@
    }
}

/// The content type for an extension in lower case.
pub fn mime_type_for_lowercase(ext: &str) -> (r: &'static str)
    ensures
        r@ == mime_for(ext@),
{
    if str_eq(ext, "mp4") || str_eq(ext, "m4v") || str_eq(ext, "mov") {
        "video/mp4"
    } else if str_eq(ext, "mkv") {
        "video/x-matroska"
    } else if str_eq(ext, "avi") {
        "video/x-msvideo"
    } else if str_eq(ext, "wmv") {
        "video/x-ms-wmv"
    } else if str_eq(ext, "mpg") || str_eq(ext, "mpeg") || str_eq(ext, "vob") {
        "video/mpeg"
    } else if str_eq(ext, "flv") {
        "video/x-flv"
    } else if str_eq(ext, "webm") {
        "video/webm"
    } else if str_eq(ext, "ts") || str_eq(ext, "m2ts") {
        "video/mp2t"
    } else {
        "video/*"
    }
}

/// The content type of a media file with extension `ext`, compared without case.
pub fn mime_type_for_extension(ext: &str) -> (r: &'static str)
    ensures
        r@ == mime_for(lower_of(ext@)),
{
    let lowered = lowercase(ext);
    mime_type_for_lowercase(lowered.as_str())
}

// ---------------------------------------------------------------------------
// Request paths and headers.

/// What a proxy request path names: a video id and, maybe, a page.
#[derive(Debug, PartialEq, Eq, Clone)]
pub struct ProxyTarget {
    pub bvid: String,
    pub page: Option<u64>,
}

/// `-page`, which separates a video id from its page number in a key.
pub open spec fn page_separator() -> Seq<char> {
    seq!['-', 'p', 'a', 'g', 'e']
}

/// The key that a request path carries: the path without its leading `/`.
pub open spec fn path_key(path: Seq<char>) -> Seq<char> {
    if path.len() > 0 && path[0] == '/' {
        path.drop_first()
    } else {
        path
    }
}

/// The video id and page that a request path names: the key splits at its first `-page`
/// when a number follows; otherwise the whole key is the video id.
pub open spec fn proxy_target_of(path: Seq<char>) -> (Seq<char>, Option<nat>) {
    let key = path_key(path);
    match find_from(key, page_separator(), 0) {
        Some(i) => match parse_u64_spec(key.subrange(i + 5, key.len() as int)) {
            Some(n) => (key.subrange(0, i), Some(n)),
            None => (key, None),
        },
        None => (key, None),
    }
}

/// Decodes a proxy request path into the video id and page it names.
pub fn decode_proxy_path(path: &str) -> (r: ProxyTarget)
    ensures
        (r.bvid@, match r.page {
            Some(n) => Some(n as nat),
            None => None,
        }) == proxy_target_of(path@),
{
    let p = chars_of(path);
    let key = if p.len() > 0 && p[0] == '/' {
        slice_chars(&p, 1, p.len())
    } else {
        p
    };
    assert(key@ =~= path_key(path@));
    let sep: Vec<char> = vec!['-', 'p', 'a', 'g', 'e'];
    assert(sep@ =~= page_separator());
    proof {
        lemma_find_from_occurs(key@, sep@, 0);
    }
    match find_exec(&key, &sep) {
        Some(i) => {
            assert(i + 5 <= key@.len());
            let tail = slice_chars(&key, i + 5, key.len());
            match parse_u64(&tail) {
                Some(n) => {
                    let id = slice_chars(&key, 0, i);
                    ProxyTarget { bvid: string_from_chars(&id), page: Some(n) }
                },
                None => ProxyTarget { bvid: string_from_chars(&key), page: None },
            }
        },
        None => ProxyTarget { bvid: string_from_chars(&key), page: None },
    }
}

/// Headers that concern one connection and are not copied from the upstream response.
pub open spec fn is_hop_header(name: Seq<char>) -> bool {
    let l = ascii_lower(name);
    l == "connection"@ || l == "content-encoding"@ || l == "transfer-encoding"@
}

/// The texts of a list of header name/value pairs.
pub open spec fn header_views(h: Seq<(String, String)>) -> Seq<(Seq<char>, Seq<char>)> {
    h.map_values(|p: (String, String)| (p.0@, p.1@))
}

/// The upstream response headers passed on, in order.
pub open spec fn forwarded_headers(h: Seq<(Seq<char>, Seq<char>)>) -> Seq<(Seq<char>, Seq<char>)>
    decreases h.len(),
{
    if h.len() == 0 {
        Seq::empty()
    } else {
        let rest = forwarded_headers(h.drop_last());
        if is_hop_header(h.last().0) {
            rest
        } else {
            rest.push(h.last())
        }
    }
}

/// User agent of the upstream requests: a desktop browser.
pub const BROWSER_USER_AGENT: &'static str =
    "Mozilla/5.0 (Windows NT 10.0; Win64; x64) AppleWebKit/537.36 (KHTML, like Gecko) Chrome/120.0.0.0 Safari/537.36";

/// Referer of the upstream requests: the hosting site.
pub const HOSTING_REFERER: &'static str = "https://www.bilibili.com";

fn clone_pair(p: &(String, String)) -> (r: (String, String))
    ensures
        r.0@ == p.0@,
        r.1@ == p.1@,
{
    (p.0.clone(), p.1.clone())
}

/// Headers of the request to the upstream address: those the resolver asked for, a browser
/// user agent, the hosting site as referer, and the renderer's `Range` when it sent one.
pub fn upstream_request_headers(required: &Vec<(String, String)>, range: Option<&str>) -> (r: Vec<(String, String)>)
    ensures
        header_views(r@) == header_views(required@) + seq![
            ("User-Agent"@, BROWSER_USER_AGENT@),
            ("Referer"@, HOSTING_REFERER@),
        ] + match range {
            Some(g) => seq![("Range"@, g@)],
            None => Seq::empty(),
        },
{
    let mut out: Vec<(String, String)> = Vec::new();
    let mut i: usize = 0;
    while i < required.len()
        invariant
            i <= required@.len(),
            out@.len() == i,
            header_views(out@) == header_views(required@.subrange(0, i as int)),
        decreases required.len() - i,
    {
        let p = clone_pair(&required[i]);
        let ghost before = out@;
        out.push(p);
        i += 1;
        assert forall|j: int| 0 <= j < i implies #[trigger] header_views(out@)[j] == header_views(
            required@.subrange(0, i as int),
        )[j] by {
            assert(required@.subrange(0, i as int)[j] == required@[j]);
            if j < i - 1 {
                assert(out@[j] == before[j]);
                assert(required@.subrange(0, i - 1)[j] == required@[j]);
                assert(header_views(before)[j] == header_views(required@.subrange(0, i - 1))[j]);
            } else {
                assert(out@[j] == p);
            }
        }
        assert(header_views(out@) =~= header_views(required@.subrange(0, i as int)));
    }
    assert(required@.subrange(0, required@.len() as int) =~= required@);
    out.push((String::from_str("User-Agent"), String::from_str(BROWSER_USER_AGENT)));
    out.push((String::from_str("Referer"), String::from_str(HOSTING_REFERER)));
    match range {
        Some(g) => {
            out.push((String::from_str("Range"), String::from_str(g)));
        },
        None => {},
    }
    assert(header_views(out@) =~= header_views(required@) + seq![
        ("User-Agent"@, BROWSER_USER_AGENT@),
        ("Referer"@, HOSTING_REFERER@),
    ] + match range {
        Some(g) => seq![("Range"@, g@)],
        None => Seq::<(Seq<char>, Seq<char>)>::empty(),
    });
    out
}

/// The upstream response headers to copy to the renderer, in order.
pub fn response_headers(upstream: &Vec<(String, String)>) -> (r: Vec<(String, String)>)
    ensures
        header_views(r@) == forwarded_headers(header_views(upstream@)),
{
    let mut out: Vec<(String, String)> = Vec::new();
    let mut i: usize = 0;
    while i < upstream.len()
        invariant
            i <= upstream@.len(),
            header_views(out@) == forwarded_headers(header_views(upstream@.subrange(0, i as int))),
        decreases upstream.len() - i,
    {
        assert(header_views(upstream@.subrange(0, i + 1)).drop_last() =~= header_views(
            upstream@.subrange(0, i as int),
        ));
        if forwards_header(upstream[i].0.as_str()) {
            let p = clone_pair(&upstream[i]);
            out.push(p);
        }
        i += 1;
        assert(header_views(out@) =~= forwarded_headers(header_views(upstream@.subrange(0, i as int))));
    }
    assert(upstream@.subrange(0, upstream@.len() as int) =~= upstream@);
    out
}

/// Whether an upstream response header is passed on to the renderer (names compare
/// without ASCII case).
pub fn forwards_header(name: &str) -> (r: bool)
    ensures
        r == !is_hop_header(name@),
{
    let l = ascii_lower_exec(&chars_of(name));
    let a = chars_of("connection");
    let b = chars_of("content-encoding");
    let c = chars_of("transfer-encoding");
    !(chars_eq(&l, &a) || chars_eq(&l, &b) || chars_eq(&l, &c))
}

proof fn lemma_separator_after_id(key: Seq<char>, bv: Seq<char>, i: int)
    requires
        0 <= i <= bv.len(),
        bv.len() + 5 <= key.len(),
        key.subrange(0, bv.len() as int) == bv,
        key.subrange(bv.len() as int, bv.len() as int + 5) == page_separator(),
        forall|k: int| 0 <= k < bv.len() ==> is_alnum(#[trigger] bv[k]),
    ensures
        find_from(key, page_separator(), i) == Some(bv.len() as int),
    decreases bv.len() - i,
{
    if i < bv.len() {
        assert(key[i] == bv[i]);
        assert(is_alnum(bv[i]));
        assert(key.subrange(i, i + 5)[0] == key[i]);
        lemma_separator_after_id(key, bv, i + 1);
    }
}

proof fn lemma_no_separator_in_id(bv: Seq<char>, i: int)
    requires
        0 <= i,
        forall|k: int| 0 <= k < bv.len() ==> is_alnum(#[trigger] bv[k]),
    ensures
        find_from(bv, page_separator(), i) is None,
    decreases bv.len() + 1 - i,
{
    if i + 5 <= bv.len() {
        assert(bv.subrange(i, i + 5)[0] == bv[i]);
        assert(is_alnum(bv[i]));
        lemma_no_separator_in_id(bv, i + 1);
    }
}

/// The proxy path `/<key>` of a well-formed media reference names the reference's video id
/// and page again.
pub proof fn lemma_proxy_path_inverts_key(bv: Seq<char>, page: Option<Seq<char>>)
    requires
        valid_reference_parts(bv, page),
        page matches Some(n) ==> decimal_value(n) <= u64::MAX,
    ensures
        proxy_target_of(seq!['/'] + key_of(video_reference(bv, page))) == (bv, match page {
            Some(n) => Some(decimal_value(n)),
            None => None::<nat>,
        }),
{
    lemma_key_of_reference(bv, page);
    let key = reference_key(bv, page);
    let path = seq!['/'] + key;
    assert(path_key(path) =~= key);
    match page {
        Some(n) => {
            assert(key.subrange(0, bv.len() as int) =~= bv);
            assert(key.subrange(bv.len() as int, bv.len() as int + 5) =~= page_separator());
            lemma_separator_after_id(key, bv, 0);
            let tail = key.subrange(bv.len() as int + 5, key.len() as int);
            assert(tail =~= n);
            assert(all_digits(n));
            assert(is_ascii_digit(n[0]));
        },
        None => {
            lemma_no_separator_in_id(bv, 0);
        },
    }
}

} // verus!
