//! Decisions of the engine that binds one renderer to one room: which local address the
//! renderer is sent, what it is told when the song changes, and what the front end is told.
use crate::dlna::{clamped_volume, TransportState};
use crate::error::EngineError;
use crate::text::{
    all_digits, append_chars, chars_of, decimal_text, decimal_value, find_char_from,
    find_from, lemma_find_from_occurs, push_decimal, slice_chars,
    string_from_chars,
};
use vstd::prelude::*;
use vstd::std_specs::bits::u32_leading_zeros;

verus! {

// ---------------------------------------------------------------------------
// IPv4 addresses.

/// One part of a dotted-quad address: one to three digits, no leading zero, at most 255.
pub open spec fn octet_ok(t: Seq<char>) -> bool {
    1 <= t.len() <= 3 && all_digits(t) && (t.len() == 1 || t[0] != '0') && decimal_value(t) <= 255
}

/// The address that a dotted-quad text `a.b.c.d` writes, as a 32-bit number.
pub open spec fn ipv4_of(s: Seq<char>) -> Option<u32> {
    let dot = seq!['.'];
    match find_from(s, dot, 0) {
        None => None,
        Some(d1) => match find_from(s, dot, d1 + 1) {
            None => None,
            Some(d2) => match find_from(s, dot, d2 + 1) {
                None => None,
                Some(d3) => {
                    let a = s.subrange(0, d1);
                    let b = s.subrange(d1 + 1, d2);
                    let c = s.subrange(d2 + 1, d3);
                    let d = s.subrange(d3 + 1, s.len() as int);
                    if find_from(s, dot, d3 + 1) is None && octet_ok(a) && octet_ok(b) && octet_ok(c)
                        && octet_ok(d) {
                        Some(
                            (decimal_value(a) * 16777216 + decimal_value(b) * 65536 + decimal_value(c)
                                * 256 + decimal_value(d)) as u32,
                        )
                    } else {
                        None
                    }
                },
            },
        },
    }
}

fn parse_octet(t: &Vec<char>) -> (r: Option<u32>)
    ensures
        match r {
            Some(v) => octet_ok(t@) && v as nat == decimal_value(t@),
            None => !octet_ok(t@),
        },
{
    if t.len() < 1 || t.len() > 3 {
        return None;
    }
    if t.len() > 1 && t[0] == '0' {
        return None;
    }
    let mut v: u32 = 0;
    let mut i: usize = 0;
    while i < t.len()
        invariant
            1 <= t@.len() <= 3,
            i <= t@.len(),
            all_digits(t@.subrange(0, i as int)),
            v as nat == decimal_value(t@.subrange(0, i as int)),
            v < 1000,
            (i == 0 ==> v == 0),
            (i == 1 ==> v < 10),
            (i == 2 ==> v < 100),
        decreases t.len() - i,
    {
        let c = t[i];
        assert(t@.subrange(0, i + 1).drop_last() =~= t@.subrange(0, i as int));
        if !(c >= '0' && c <= '9') {
            assert(t@[i as int] == c);
            return None;
        }
        v = v * 10 + (c as u32 - '0' as u32);
        i += 1;
        assert(all_digits(t@.subrange(0, i as int)));
    }
    assert(t@.subrange(0, t@.len() as int) =~= t@);
    if v > 255 {
        return None;
    }
    Some(v)
}

/// Reads a dotted-quad IPv4 address.
pub fn parse_ipv4(s: &str) -> (r: Option<u32>)
    ensures
        r == ipv4_of(s@),
{
    let v = chars_of(s);
    assert(v@.len() == v.len());
    proof {
        lemma_find_from_occurs(v@, seq!['.'], 0);
    }
    let d1 = match find_char_from(&v, '.', 0) {
        Some(d) => d,
        None => {
            return None;
        },
    };
    assert(d1 + 1 <= v@.len());
    proof {
        lemma_find_from_occurs(v@, seq!['.'], d1 + 1);
    }
    let d2 = match find_char_from(&v, '.', d1 + 1) {
        Some(d) => d,
        None => {
            return None;
        },
    };
    assert(d2 + 1 <= v@.len());
    proof {
        lemma_find_from_occurs(v@, seq!['.'], d2 + 1);
    }
    let d3 = match find_char_from(&v, '.', d2 + 1) {
        Some(d) => d,
        None => {
            return None;
        },
    };
    assert(d3 + 1 <= v@.len());
    if find_char_from(&v, '.', d3 + 1).is_some() {
        return None;
    }
    let a = parse_octet(&slice_chars(&v, 0, d1));
    let b = parse_octet(&slice_chars(&v, d1 + 1, d2));
    let c = parse_octet(&slice_chars(&v, d2 + 1, d3));
    let d = parse_octet(&slice_chars(&v, d3 + 1, v.len()));
    match (a, b, c, d) {
        (Some(a), Some(b), Some(c), Some(d)) => Some(a * 16777216 + b * 65536 + c * 256 + d),
        _ => None,
    }
}

/// The dotted-quad text of an address.
pub open spec fn ipv4_text_of(ip: u32) -> Seq<char> {
    decimal_text((ip / 16777216) as nat) + seq!['.'] + decimal_text(((ip / 65536) % 256) as nat)
        + seq!['.'] + decimal_text(((ip / 256) % 256) as nat) + seq!['.'] + decimal_text(
        (ip % 256) as nat,
    )
}

fn push_ipv4(v: &mut Vec<char>, ip: u32)
    ensures
        final(v)@ == old(v)@ + ipv4_text_of(ip),
{
    push_decimal(v, (ip / 16777216) as u64);
    v.push('.');
    push_decimal(v, ((ip / 65536) % 256) as u64);
    v.push('.');
    push_decimal(v, ((ip / 256) % 256) as u64);
    v.push('.');
    push_decimal(v, (ip % 256) as u64);
    assert(v@ =~= old(v)@ + ipv4_text_of(ip));
}

/// Writes an address as a dotted quad.
pub fn ipv4_text(ip: u32) -> (r: String)
    ensures
        r@ == ipv4_text_of(ip),
{
    let mut v: Vec<char> = Vec::new();
    push_ipv4(&mut v, ip);
    string_from_chars(&v)
}

// ---------------------------------------------------------------------------
// The renderer's host and the local address that faces it.

/// The host of a description address `scheme://host[:port]/...`: the third `/`-separated
/// part, up to its first `:`; `127.0.0.1` where there is no third part.
pub open spec fn location_host_of(s: Seq<char>) -> Seq<char> {
    let slash = seq!['/'];
    match find_from(s, slash, 0) {
        None => "127.0.0.1"@,
        Some(a) => match find_from(s, slash, a + 1) {
            None => "127.0.0.1"@,
            Some(b) => {
                let end = match find_from(s, slash, b + 1) {
                    Some(c) => c,
                    None => s.len() as int,
                };
                let part = s.subrange(b + 1, end);
                match find_from(part, seq![':'], 0) {
                    Some(k) => part.subrange(0, k),
                    None => part,
                }
            },
        },
    }
}

/// The host named by a renderer's description address.
pub fn location_host(location: &str) -> (r: String)
    ensures
        r@ == location_host_of(location@),
{
    let s = chars_of(location);
    assert(s@.len() == s.len());
    proof {
        lemma_find_from_occurs(s@, seq!['/'], 0);
    }
    let a = match find_char_from(&s, '/', 0) {
        Some(a) => a,
        None => {
            return String::from_str("127.0.0.1");
        },
    };
    proof {
        lemma_find_from_occurs(s@, seq!['/'], a + 1);
    }
    let b = match find_char_from(&s, '/', a + 1) {
        Some(b) => b,
        None => {
            return String::from_str("127.0.0.1");
        },
    };
    proof {
        lemma_find_from_occurs(s@, seq!['/'], b + 1);
    }
    let end = match find_char_from(&s, '/', b + 1) {
        Some(c) => c,
        None => s.len(),
    };
    let part = slice_chars(&s, b + 1, end);
    proof {
        lemma_find_from_occurs(part@, seq![':'], 0);
    }
    let host = match find_char_from(&part, ':', 0) {
        Some(k) => slice_chars(&part, 0, k),
        None => part,
    };
    string_from_chars(&host)
}

/// How many leading bits two addresses share.
pub open spec fn shared_bits(a: u32, b: u32) -> u32 {
    u32_leading_zeros(a ^ b)
}

/// Position `k` of `ips` shares the most leading bits with `target`, and is the last
/// position that shares that many.
pub open spec fn is_best_interface(target: u32, ips: Seq<u32>, k: int) -> bool {
    &&& 0 <= k < ips.len()
    &&& forall|j: int| 0 <= j < ips.len() ==> shared_bits(target, #[trigger] ips[j]) <= shared_bits(target, ips[k])
    &&& forall|j: int| k < j < ips.len() ==> shared_bits(target, #[trigger] ips[j]) < shared_bits(target, ips[k])
}

/// The position of the interface address that shares the longest prefix with `target`; on a
/// tie, the last of them.
pub fn select_local_ip(target: u32, interfaces: &Vec<u32>) -> (r: Option<usize>)
    ensures
        r is None <==> interfaces@.len() == 0,
        r matches Some(k) ==> is_best_interface(target, interfaces@, k as int),
{
    if interfaces.len() == 0 {
        return None;
    }
    let mut best: usize = 0;
    let mut best_bits: u32 = (target ^ interfaces[0]).leading_zeros();
    let mut i: usize = 1;
    while i < interfaces.len()
        invariant
            1 <= i <= interfaces@.len(),
            best < i,
            best_bits == shared_bits(target, interfaces@[best as int]),
            forall|j: int| 0 <= j < i ==> shared_bits(target, #[trigger] interfaces@[j]) <= best_bits,
            forall|j: int| best < j < i ==> shared_bits(target, #[trigger] interfaces@[j]) < best_bits,
        decreases interfaces.len() - i,
    {
        let bits = (target ^ interfaces[i]).leading_zeros();
        if bits >= best_bits {
            best = i;
            best_bits = bits;
        }
        i += 1;
    }
    Some(best)
}

/// The local address to hand the renderer at `target_device_ip`: among the IPv4 interface
/// addresses, the one sharing the longest prefix with it (the last on a tie). `None` where
/// the target is no IPv4 address or there is no interface.
pub fn get_best_local_ip(target_device_ip: &str, interfaces: &Vec<u32>) -> (r: Option<u32>)
    ensures
        match ipv4_of(target_device_ip@) {
            None => r is None,
            Some(t) => (r is None <==> interfaces@.len() == 0) && (r matches Some(ip) ==> exists|k: int|
                is_best_interface(t, interfaces@, k) && interfaces@[k] == ip),
        },
{
    let t = match parse_ipv4(target_device_ip) {
        Some(t) => t,
        None => {
            return None;
        },
    };
    match select_local_ip(t, interfaces) {
        Some(k) => Some(interfaces[k]),
        None => None,
    }
}

// ---------------------------------------------------------------------------
// Casting a song.

/// The address at which the renderer fetches a song: `http://<ip>:<port>/<key>`.
pub open spec fn proxy_url_of(local_ip: u32, port: u16, key: Seq<char>) -> Seq<char> {
    "http://"@ + ipv4_text_of(local_ip) + seq![':'] + decimal_text(port as nat) + seq!['/'] + key
}

/// The address at which the renderer fetches the song with key `key` from this proxy.
pub fn proxy_url(local_ip: u32, port: u16, key: &str) -> (r: String)
    ensures
        r@ == proxy_url_of(local_ip, port, key@),
{
    let mut v = chars_of("http://");
    push_ipv4(&mut v, local_ip);
    v.push(':');
    push_decimal(&mut v, port as u64);
    v.push('/');
    append_chars(&mut v, &chars_of(key));
    string_from_chars(&v)
}

/// One instruction to the renderer.
#[derive(Debug, PartialEq, Eq, Clone)]
pub enum CastStep {
    Stop,
    SetUri { uri: String, metadata: String },
    Play,
}

/// The instructions that cast a new song: stop, set the proxy address with empty metadata,
/// play; each is retried until it takes effect.
pub fn cast_plan(key: &str, local_ip: u32, port: u16) -> (r: Vec<CastStep>)
    ensures
        r@.len() == 3,
        r@[0] == CastStep::Stop,
        r@[1] matches CastStep::SetUri { uri, metadata } && uri@ == proxy_url_of(local_ip, port, key@)
            && metadata@.len() == 0,
        r@[2] == CastStep::Play,
{
    let mut r: Vec<CastStep> = Vec::new();
    r.push(CastStep::Stop);
    r.push(CastStep::SetUri { uri: proxy_url(local_ip, port, key), metadata: String::new() });
    r.push(CastStep::Play);
    r
}

// ---------------------------------------------------------------------------
// Lifecycle and the front end's answers.

/// Wait after dropping a running engine, so that its server socket is released.
pub const RESTART_WAIT_MS: u64 = 300;

/// What `start` does before it builds a new engine.
#[derive(Debug, PartialEq, Eq, Structural, Clone, Copy)]
pub struct StartPlan {
    /// Drop the running engine first.
    pub reset_first: bool,
    /// Then wait this long, in milliseconds.
    pub wait_ms: u64,
}

/// What `start` does first, given whether an engine is running.
pub fn plan_start(running: bool) -> (r: StartPlan)
    ensures
        r.reset_first == running,
        r.wait_ms == if running { RESTART_WAIT_MS } else { 0 },
{
    if running {
        StartPlan { reset_first: true, wait_ms: RESTART_WAIT_MS }
    } else {
        StartPlan { reset_first: false, wait_ms: 0 }
    }
}

/// The transport action that toggles playback.
#[derive(Debug, PartialEq, Eq, Structural, Clone, Copy)]
pub enum TransportCommand {
    Play,
    Pause,
}

/// Pause while playing, play while paused.
pub fn toggle_command(is_playing: bool) -> (r: TransportCommand)
    ensures
        r == if is_playing { TransportCommand::Pause } else { TransportCommand::Play },
{
    if is_playing {
        TransportCommand::Pause
    } else {
        TransportCommand::Play
    }
}

/// After a toggle: whether playback runs, and the answer to the front end (1 playing,
/// 0 paused, -1 when the action failed and nothing changed).
pub fn after_toggle(is_playing: bool, succeeded: bool) -> (r: (bool, i32))
    ensures
        succeeded ==> r == (!is_playing, if is_playing { 0i32 } else { 1i32 }),
        !succeeded ==> r == (is_playing, -1i32),
{
    if !succeeded {
        (is_playing, -1)
    } else if is_playing {
        (false, 0)
    } else {
        (true, 1)
    }
}

/// A reading for the front end: the value, or -1 when there is no engine or the read failed.
pub fn reading_or_sentinel(value: Option<u64>) -> (r: i64)
    requires
        value matches Some(v) ==> v <= i64::MAX,
    ensures
        r == match value {
            Some(v) => v as i64,
            None => -1i64,
        },
{
    match value {
        Some(v) => v as i64,
        None => -1,
    }
}

/// A control operation goes ahead only while an engine runs; otherwise it fails at once,
/// without a retry.
pub fn require_running(running: bool) -> (r: Result<(), EngineError>)
    ensures
        running ==> r is Ok,
        !running ==> r == Err::<(), EngineError>(EngineError::NotInitialized),
{
    if running {
        Ok(())
    } else {
        Err(EngineError::NotInitialized)
    }
}

/// Whether playback runs, from the transport state the renderer reported when the engine
/// started; afterwards the engine keeps its own account.
pub fn playing_from_state(state: Option<TransportState>) -> (r: bool)
    ensures
        r == (state == Some(TransportState::Playing)),
{
    match state {
        Some(TransportState::Playing) => true,
        _ => false,
    }
}

/// The answer to a volume request: the level sent, clamped to `[0, 100]`, or -1 when the
/// action failed.
pub fn volume_answer(requested: i64, succeeded: bool) -> (r: i64)
    ensures
        r == if succeeded { clamped_volume(requested) as i64 } else { -1i64 },
{
    if succeeded {
        crate::dlna::clamp_volume(requested) as i64
    } else {
        -1
    }
}

} // verus!
