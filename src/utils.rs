//! Queue-entry keys and the status-code policy of the renderer actions.
use crate::text::{chars_of, digit_value, is_ascii_digit, find_exec, find_from, lemma_find_from_occurs, occurs_at, slice_chars, string_from_chars};
use vstd::prelude::*;

verus! {

/// Scheme prefix of a queue entry's media reference.
pub open spec fn video_prefix() -> Seq<char> {
    seq!['b', 'i', 'l', 'i', 'b', 'i', 'l', 'i', ':', '/', '/', 'v', 'i', 'd', 'e', 'o', '/']
}

/// Replaces `?` by `-` and drops `=`, so that the text is accepted inside a renderer URI.
pub open spec fn sanitize(s: Seq<char>) -> Seq<char>
    decreases s.len(),
{
    if s.len() == 0 {
        Seq::empty()
    } else {
        let rest = sanitize(s.drop_last());
        let c = s.last();
        if c == '?' {
            rest.push('-')
        } else if c == '=' {
            rest
        } else {
            rest.push(c)
        }
    }
}

/// What follows the first occurrence of the scheme prefix, or the whole text without one.
pub open spec fn after_video_prefix(s: Seq<char>) -> Seq<char> {
    match find_from(s, video_prefix(), 0) {
        Some(i) => s.subrange(i + video_prefix().len(), s.len() as int),
        None => s,
    }
}

/// The key of a queue entry's media reference.
pub open spec fn key_of(s: Seq<char>) -> Seq<char> {
    sanitize(after_video_prefix(s))
}

fn video_prefix_exec() -> (r: Vec<char>)
    ensures
        r@ == video_prefix(),
{
    let r: Vec<char> = vec!['b', 'i', 'l', 'i', 'b', 'i', 'l', 'i', ':', '/', '/', 'v', 'i', 'd', 'e', 'o', '/'];
    assert(r@ =~= video_prefix());
    r
}

fn sanitize_exec(s: &Vec<char>) -> (r: Vec<char>)
    ensures
        r@ == sanitize(s@),
{
    let mut out: Vec<char> = Vec::new();
    let mut i: usize = 0;
    while i < s.len()
        invariant
            i <= s@.len(),
            out@ == sanitize(s@.subrange(0, i as int)),
        decreases s.len() - i,
    {
        let c = s[i];
        if c == '?' {
            out.push('-');
        } else if c != '=' {
            out.push(c);
        }
        assert(s@.subrange(0, i + 1).drop_last() =~= s@.subrange(0, i as int));
        i += 1;
    }
    assert(s@.subrange(0, s@.len() as int) =~= s@);
    out
}

/// The key of a queue entry: the text after `bilibili://video/` (or all of it), with `?`
/// turned into `-` and `=` removed.
pub fn extract_bv_id(url: &str) -> (r: String)
    ensures
        r@ == key_of(url@),
{
    let s = chars_of(url);
    let p = video_prefix_exec();
    proof {
        lemma_find_from_occurs(s@, p@, 0);
    }
    let tail = match find_exec(&s, &p) {
        Some(start) => {
            assert(occurs_at(s@, p@, start as int));
            assert(start + p@.len() <= s@.len());
            assert(s@.len() == s.len());
            slice_chars(&s, start + p.len(), s.len())
        },
        None => s,
    };
    let out = sanitize_exec(&tail);
    string_from_chars(&out)
}

// ---------------------------------------------------------------------------
// Well-formed media references and the laws of the key.

pub open spec fn is_alnum(c: char) -> bool {
    ('0' <= c && c <= '9') || ('a' <= c && c <= 'z') || ('A' <= c && c <= 'Z')
}

/// The query that selects a page of a video: `?page=`.
pub open spec fn page_query() -> Seq<char> {
    seq!['?', 'p', 'a', 'g', 'e', '=']
}

/// What the page query becomes inside a key: `-page`.
pub open spec fn page_marker() -> Seq<char> {
    seq!['-', 'p', 'a', 'g', 'e']
}

/// A video id and a page number that a media reference may carry.
pub open spec fn valid_reference_parts(bv: Seq<char>, page: Option<Seq<char>>) -> bool {
    &&& bv.len() > 0
    &&& forall|k: int| 0 <= k < bv.len() ==> is_alnum(#[trigger] bv[k])
    &&& match page {
        Some(n) => n.len() > 0 && forall|k: int| 0 <= k < n.len() ==> is_ascii_digit(#[trigger] n[k]),
        None => true,
    }
}

/// The media reference `bilibili://video/<bv>[?page=<n>]`.
pub open spec fn video_reference(bv: Seq<char>, page: Option<Seq<char>>) -> Seq<char> {
    match page {
        Some(n) => video_prefix() + bv + page_query() + n,
        None => video_prefix() + bv,
    }
}

/// The key of that reference: `<bv>[-page<n>]`.
pub open spec fn reference_key(bv: Seq<char>, page: Option<Seq<char>>) -> Seq<char> {
    match page {
        Some(n) => bv + page_marker() + n,
        None => bv,
    }
}

pub open spec fn plain_text(s: Seq<char>) -> bool {
    forall|k: int| 0 <= k < s.len() ==> #[trigger] s[k] != '?' && s[k] != '=' && s[k] != ':'
}

proof fn lemma_sanitize_concat(a: Seq<char>, b: Seq<char>)
    ensures
        sanitize(a + b) == sanitize(a) + sanitize(b),
    decreases b.len(),
{
    if b.len() == 0 {
        assert(a + b =~= a);
        assert(sanitize(b) =~= Seq::<char>::empty());
        assert(sanitize(a) + sanitize(b) =~= sanitize(a));
    } else {
        lemma_sanitize_concat(a, b.drop_last());
        assert((a + b).drop_last() =~= a + b.drop_last());
        assert((a + b).last() == b.last());
        let c = b.last();
        if c == '?' {
            assert(sanitize(a) + sanitize(b.drop_last()).push('-') =~= (sanitize(a) + sanitize(b.drop_last())).push('-'));
        } else if c == '=' {
        } else {
            assert(sanitize(a) + sanitize(b.drop_last()).push(c) =~= (sanitize(a) + sanitize(b.drop_last())).push(c));
        }
    }
}

proof fn lemma_sanitize_plain(s: Seq<char>)
    requires
        forall|k: int| 0 <= k < s.len() ==> #[trigger] s[k] != '?' && s[k] != '=',
    ensures
        sanitize(s) == s,
    decreases s.len(),
{
    if s.len() > 0 {
        lemma_sanitize_plain(s.drop_last());
        assert(s.drop_last().push(s.last()) =~= s);
    }
}

proof fn lemma_no_prefix_in_plain(s: Seq<char>, i: int)
    requires
        plain_text(s),
    ensures
        find_from(s, video_prefix(), i) is None,
    decreases s.len() + 1 - i,
{
    if i < 0 || i + video_prefix().len() > s.len() {
    } else {
        assert(s.subrange(i, i + video_prefix().len())[8] == s[i + 8]);
        assert(video_prefix()[8] == ':');
        lemma_no_prefix_in_plain(s, i + 1);
    }
}

proof fn lemma_sanitize_page_query()
    ensures
        sanitize(page_query()) == page_marker(),
{
    let q = page_query();
    assert(q.drop_last() =~= seq!['?', 'p', 'a', 'g', 'e']);
    assert(seq!['?', 'p', 'a', 'g', 'e'].drop_last() =~= seq!['?', 'p', 'a', 'g']);
    assert(seq!['?', 'p', 'a', 'g'].drop_last() =~= seq!['?', 'p', 'a']);
    assert(seq!['?', 'p', 'a'].drop_last() =~= seq!['?', 'p']);
    assert(seq!['?', 'p'].drop_last() =~= seq!['?']);
    assert(seq!['?'].drop_last() =~= Seq::<char>::empty());
    assert(sanitize(Seq::<char>::empty()) =~= Seq::<char>::empty());
    assert(sanitize(seq!['?']) =~= seq!['-']);
    assert(sanitize(seq!['?', 'p']) =~= seq!['-', 'p']);
    assert(sanitize(seq!['?', 'p', 'a']) =~= seq!['-', 'p', 'a']);
    assert(sanitize(seq!['?', 'p', 'a', 'g']) =~= seq!['-', 'p', 'a', 'g']);
    assert(sanitize(seq!['?', 'p', 'a', 'g', 'e']) =~= seq!['-', 'p', 'a', 'g', 'e']);
    assert(sanitize(q) =~= page_marker());
}

/// The key of a well-formed media reference is `<bv>[-page<n>]`, free of `?`, `=` and `:`.
pub proof fn lemma_key_of_reference(bv: Seq<char>, page: Option<Seq<char>>)
    requires
        valid_reference_parts(bv, page),
    ensures
        key_of(video_reference(bv, page)) == reference_key(bv, page),
        plain_text(reference_key(bv, page)),
{
    let x = video_reference(bv, page);
    let rest = match page {
        Some(n) => bv + page_query() + n,
        None => bv,
    };
    assert(x =~= video_prefix() + rest);
    assert(x.subrange(0, video_prefix().len() as int) =~= video_prefix());
    assert(find_from(x, video_prefix(), 0) == Some(0int));
    assert(after_video_prefix(x) =~= rest);
    lemma_sanitize_plain(bv);
    match page {
        Some(n) => {
            lemma_sanitize_plain(n);
            lemma_sanitize_concat(bv + page_query(), n);
            lemma_sanitize_concat(bv, page_query());
            lemma_sanitize_page_query();
            assert(rest =~= (bv + page_query()) + n);
            let k = bv + page_marker() + n;
            assert forall|j: int| 0 <= j < k.len() implies #[trigger] k[j] != '?' && k[j] != '=' && k[j] != ':' by {
                if j < bv.len() {
                    assert(k[j] == bv[j]);
                } else if j < bv.len() + 5 {
                    assert(k[j] == page_marker()[j - bv.len()]);
                } else {
                    assert(k[j] == n[j - bv.len() - 5]);
                }
            }
        },
        None => {
            assert forall|j: int| 0 <= j < bv.len() implies #[trigger] bv[j] != '?' && bv[j] != '=' && bv[j] != ':' by {
                assert(is_alnum(bv[j]));
            }
        },
    }
}

/// Taking the key of a key changes nothing: a key of a well-formed media reference holds
/// neither the scheme prefix nor `?` nor `=`.
pub proof fn lemma_key_idempotent(bv: Seq<char>, page: Option<Seq<char>>)
    requires
        valid_reference_parts(bv, page),
    ensures
        key_of(key_of(video_reference(bv, page))) == key_of(video_reference(bv, page)),
{
    lemma_key_of_reference(bv, page);
    let k = reference_key(bv, page);
    lemma_no_prefix_in_plain(k, 0);
    assert(after_video_prefix(k) == k);
    lemma_sanitize_plain(k);
}

/// Two well-formed media references with the same key are the same reference.
pub proof fn lemma_key_injective(
    bv1: Seq<char>,
    page1: Option<Seq<char>>,
    bv2: Seq<char>,
    page2: Option<Seq<char>>,
)
    requires
        valid_reference_parts(bv1, page1),
        valid_reference_parts(bv2, page2),
        key_of(video_reference(bv1, page1)) == key_of(video_reference(bv2, page2)),
    ensures
        video_reference(bv1, page1) == video_reference(bv2, page2),
{
    lemma_key_of_reference(bv1, page1);
    lemma_key_of_reference(bv2, page2);
    let k1 = reference_key(bv1, page1);
    let k2 = reference_key(bv2, page2);
    assert(k1 == k2);
    // The video id runs up to the first '-' of the key, or to its end.
    assert forall|j: int| 0 <= j < bv1.len() && j < bv2.len() implies bv1[j] == bv2[j] by {
        assert(k1[j] == bv1[j]);
        assert(k2[j] == bv2[j]);
    }
    if bv1.len() < bv2.len() {
        assert(is_alnum(bv2[bv1.len() as int]));
        assert(k2[bv1.len() as int] == bv2[bv1.len() as int]);
        match page1 {
            Some(n) => {
                assert(k1[bv1.len() as int] == '-');
            },
            None => {
                assert(k1.len() == bv1.len());
            },
        }
    } else if bv2.len() < bv1.len() {
        assert(is_alnum(bv1[bv2.len() as int]));
        assert(k1[bv2.len() as int] == bv1[bv2.len() as int]);
        match page2 {
            Some(n) => {
                assert(k2[bv2.len() as int] == '-');
            },
            None => {
                assert(k2.len() == bv2.len());
            },
        }
    } else {
        assert(bv1 =~= bv2);
        match (page1, page2) {
            (Some(n1), Some(n2)) => {
                assert(n1 =~= k1.subrange(bv1.len() as int + 5, k1.len() as int));
                assert(n2 =~= k2.subrange(bv2.len() as int + 5, k2.len() as int));
            },
            (Some(n1), None) => {
                assert(k1.len() > k2.len());
            },
            (None, Some(n2)) => {
                assert(k2.len() > k1.len());
            },
            (None, None) => {},
        }
    }
}

// ---------------------------------------------------------------------------
// Status codes carried in error messages.

/// A run of exactly three ASCII digits starts at `a`.
pub open spec fn code_run_at(s: Seq<char>, a: int) -> bool {
    &&& 0 <= a && a + 3 <= s.len()
    &&& is_ascii_digit(s[a]) && is_ascii_digit(s[a + 1]) && is_ascii_digit(s[a + 2])
    &&& (a == 0 || !is_ascii_digit(s[a - 1]))
    &&& (a + 3 == s.len() || !is_ascii_digit(s[a + 3]))
}

pub open spec fn first_code_run_from(s: Seq<char>, i: int) -> Option<int>
    decreases s.len() + 1 - i,
{
    if i < 0 || i + 3 > s.len() {
        None
    } else if code_run_at(s, i) {
        Some(i)
    } else {
        first_code_run_from(s, i + 1)
    }
}

/// The number written by the first run of exactly three digits in a message.
pub open spec fn error_code_of(s: Seq<char>) -> Option<nat> {
    match first_code_run_from(s, 0) {
        Some(a) => Some(100 * digit_value(s[a]) + 10 * digit_value(s[a + 1]) + digit_value(s[a + 2])),
        None => None,
    }
}

pub open spec fn is_two_hundred(code: nat) -> bool {
    200 <= code && code < 300
}

/// The message reports a status of the 2xx class.
pub open spec fn reports_success(s: Seq<char>) -> bool {
    match error_code_of(s) {
        Some(c) => is_two_hundred(c),
        None => false,
    }
}

fn is_digit_exec(c: char) -> (r: bool)
    ensures
        r == is_ascii_digit(c),
{
    c >= '0' && c <= '9'
}

fn code_run_at_exec(s: &Vec<char>, a: usize) -> (r: bool)
    requires
        a + 3 <= s.len(),
    ensures
        r == code_run_at(s@, a as int),
{
    is_digit_exec(s[a]) && is_digit_exec(s[a + 1]) && is_digit_exec(s[a + 2])
        && (a == 0 || !is_digit_exec(s[a - 1]))
        && (a + 3 == s.len() || !is_digit_exec(s[a + 3]))
}

/// The first run of exactly three digits in an error message, read as a number
/// (`"HTTP 404"` gives 404).
pub fn extract_error_code(error_msg: &str) -> (r: Option<u32>)
    ensures
        match r {
            Some(c) => error_code_of(error_msg@) == Some(c as nat),
            None => error_code_of(error_msg@) is None,
        },
{
    let s = chars_of(error_msg);
    if s.len() < 3 {
        return None;
    }
    let last = s.len() - 3;
    let mut i: usize = 0;
    loop
        invariant
            last + 3 == s@.len(),
            s@ == error_msg@,
            i <= last,
            first_code_run_from(s@, 0) == first_code_run_from(s@, i as int),
        decreases last - i,
    {
        assert(s@.len() == s.len());
        if code_run_at_exec(&s, i) {
            let d0 = s[i] as u32 - '0' as u32;
            let d1 = s[i + 1] as u32 - '0' as u32;
            let d2 = s[i + 2] as u32 - '0' as u32;
            assert(d0 as nat == digit_value(s@[i as int]));
            assert(d1 as nat == digit_value(s@[i + 1]));
            assert(d2 as nat == digit_value(s@[i + 2]));
            assert(first_code_run_from(s@, i as int) == Some(i as int));
            return Some(100 * d0 + 10 * d1 + d2);
        }
        assert(first_code_run_from(s@, i as int) == first_code_run_from(s@, i + 1));
        if i == last {
            assert(first_code_run_from(s@, i + 1) is None);
            return None;
        }
        i += 1;
    }
}

/// Whether a status code is of the 2xx class.
pub fn is_success_code(code: u32) -> (r: bool)
    ensures
        r == is_two_hundred(code as nat),
{
    code / 100 == 2
}

/// Whether an error should count as success: its message carries a 2xx status, which many
/// renderers send with an empty or malformed body.
pub fn should_treat_as_upnp_success(error_msg: &str) -> (r: bool)
    ensures
        r == reports_success(error_msg@),
{
    match extract_error_code(error_msg) {
        Some(code) => is_success_code(code),
        None => false,
    }
}

// ---------------------------------------------------------------------------
// Retry policy of renderer actions.

/// Pause between two attempts of a failed action, in milliseconds.
pub const RETRY_DELAY_MS: u64 = 500;

/// What to do after an attempt of an action failed.
#[derive(Debug, PartialEq, Eq, Structural, Clone, Copy)]
pub enum RetryStep {
    /// The failure carried a 2xx status: the action took effect.
    Succeeded,
    /// Wait `delay_ms`, then make attempt number `failures + 1`.
    RetryAfter { failures: usize, delay_ms: u64 },
    /// The bound on retries is spent.
    GiveUp,
}

pub open spec fn failures_after(failures: usize) -> usize {
    if failures < usize::MAX {
        (failures + 1) as usize
    } else {
        failures
    }
}

/// The decision after a failure with message `msg`, when `failures` failures came before it;
/// a bound of 0 means retry without end.
pub open spec fn retry_step_spec(failures: usize, max_retries: usize, msg: Seq<char>) -> RetryStep {
    if reports_success(msg) {
        RetryStep::Succeeded
    } else if max_retries > 0 && failures_after(failures) > max_retries {
        RetryStep::GiveUp
    } else {
        RetryStep::RetryAfter { failures: failures_after(failures), delay_ms: RETRY_DELAY_MS }
    }
}

/// Decides what follows a failed attempt whose error reads `error_msg`.
pub fn retry_step(failures: usize, max_retries: usize, error_msg: &str) -> (r: RetryStep)
    ensures
        r == retry_step_spec(failures, max_retries, error_msg@),
{
    if should_treat_as_upnp_success(error_msg) {
        return RetryStep::Succeeded;
    }
    let n = failures.saturating_add(1);
    if max_retries > 0 && n > max_retries {
        RetryStep::GiveUp
    } else {
        RetryStep::RetryAfter { failures: n, delay_ms: RETRY_DELAY_MS }
    }
}

/// A message that reports status `d` (three digits) between a text free of digits and a
/// text that does not begin with one.
pub open spec fn status_message(pre: Seq<char>, d: Seq<char>, post: Seq<char>) -> Seq<char> {
    pre + d + post
}

proof fn lemma_first_code_run_after_text(pre: Seq<char>, d: Seq<char>, post: Seq<char>, i: int)
    requires
        forall|k: int| 0 <= k < pre.len() ==> !is_ascii_digit(#[trigger] pre[k]),
        d.len() == 3,
        forall|k: int| 0 <= k < 3 ==> is_ascii_digit(#[trigger] d[k]),
        post.len() == 0 || !is_ascii_digit(post[0]),
        0 <= i <= pre.len(),
    ensures
        first_code_run_from(status_message(pre, d, post), i) == Some(pre.len() as int),
    decreases pre.len() - i,
{
    let s = status_message(pre, d, post);
    let p = pre.len() as int;
    assert(s[p] == d[0] && s[p + 1] == d[1] && s[p + 2] == d[2]);
    if p > 0 {
        assert(s[p - 1] == pre[p - 1]);
    }
    if post.len() > 0 {
        assert(s[p + 3] == post[0]);
    }
    if i < p {
        assert(s[i] == pre[i]);
        lemma_first_code_run_after_text(pre, d, post, i + 1);
    } else {
        assert(code_run_at(s, p));
    }
}

/// A failure that carries a 2xx status, as a renderer's reply with an empty or malformed body
/// does, counts as success at the first attempt, whatever the bound on retries.
pub proof fn lemma_two_hundred_is_success(
    max_retries: usize,
    pre: Seq<char>,
    d: Seq<char>,
    post: Seq<char>,
)
    requires
        forall|k: int| 0 <= k < pre.len() ==> !is_ascii_digit(#[trigger] pre[k]),
        d.len() == 3,
        d[0] == '2',
        forall|k: int| 0 <= k < 3 ==> is_ascii_digit(#[trigger] d[k]),
        post.len() == 0 || !is_ascii_digit(post[0]),
    ensures
        retry_step_spec(0, max_retries, status_message(pre, d, post)) == RetryStep::Succeeded,
{
    let s = status_message(pre, d, post);
    let p = pre.len() as int;
    lemma_first_code_run_after_text(pre, d, post, 0);
    assert(s[p] == d[0] && s[p + 1] == d[1] && s[p + 2] == d[2]);
    assert(is_ascii_digit(d[1]) && is_ascii_digit(d[2]));
}

} // verus!
