//! What is sent to a renderer's AVTransport and RenderingControl services, and how their
//! answers are read.
use crate::text::{
    all_digits, append_chars, chars_of, decimal_text, decimal_value, find_char_from, find_from,
    lemma_find_from_occurs, parse_u64, parse_u64_spec, push_decimal, slice_chars, str_eq,
    string_from_chars,
};
use vstd::prelude::*;

verus! {

/// Service type of the transport actions.
pub const AV_TRANSPORT: &'static str = "urn:schemas-upnp-org:service:AVTransport:1";

/// Service type of the volume actions.
pub const RENDERING_CONTROL: &'static str = "urn:schemas-upnp-org:service:RenderingControl:1";

// ---------------------------------------------------------------------------
// Text inside an envelope.

/// The text with `&`, `<`, `>`, `"` and `'` written as XML entities.
pub open spec fn xml_escaped(s: Seq<char>) -> Seq<char>
    decreases s.len(),
{
    if s.len() == 0 {
        Seq::empty()
    } else {
        let c = s.last();
        xml_escaped(s.drop_last()) + if c == '&' {
            "&amp;"@
        } else if c == '<' {
            "&lt;"@
        } else if c == '>' {
            "&gt;"@
        } else if c == '"' {
            "&quot;"@
        } else if c == '\'' {
            "&apos;"@
        } else {
            seq![c]
        }
    }
}

/// Escapes a text for an element of the envelope.
pub fn xml_escape(s: &str) -> (r: String)
    ensures
        r@ == xml_escaped(s@),
{
    let v = chars_of(s);
    let amp = chars_of("&amp;");
    let lt = chars_of("&lt;");
    let gt = chars_of("&gt;");
    let quot = chars_of("&quot;");
    let apos = chars_of("&apos;");
    let mut out: Vec<char> = Vec::new();
    let mut i: usize = 0;
    while i < v.len()
        invariant
            i <= v@.len(),
            v@ == s@,
            amp@ == "&amp;"@,
            lt@ == "&lt;"@,
            gt@ == "&gt;"@,
            quot@ == "&quot;"@,
            apos@ == "&apos;"@,
            out@ == xml_escaped(v@.subrange(0, i as int)),
        decreases v.len() - i,
    {
        let c = v[i];
        assert(v@.subrange(0, i + 1).drop_last() =~= v@.subrange(0, i as int));
        if c == '&' {
            append_chars(&mut out, &amp);
        } else if c == '<' {
            append_chars(&mut out, &lt);
        } else if c == '>' {
            append_chars(&mut out, &gt);
        } else if c == '"' {
            append_chars(&mut out, &quot);
        } else if c == '\'' {
            append_chars(&mut out, &apos);
        } else {
            out.push(c);
            assert(out@ =~= xml_escaped(v@.subrange(0, i as int)) + seq![c]);
        }
        i += 1;
    }
    assert(v@.subrange(0, v@.len() as int) =~= v@);
    string_from_chars(&out)
}

// ---------------------------------------------------------------------------
// Times written `H:MM:SS`.

/// A number of at least two digits.
pub open spec fn two_digits(n: nat) -> Seq<char> {
    if n < 10 {
        seq!['0'] + decimal_text(n)
    } else {
        decimal_text(n)
    }
}

/// A number of seconds written `HH:MM:SS`.
pub open spec fn hms_text(secs: nat) -> Seq<char> {
    two_digits(secs / 3600) + seq![':'] + two_digits((secs / 60) % 60) + seq![':'] + two_digits(
        secs % 60,
    )
}

fn push_two_digits(v: &mut Vec<char>, n: u64)
    ensures
        final(v)@ == old(v)@ + two_digits(n as nat),
{
    if n < 10 {
        v.push('0');
    }
    push_decimal(v, n);
    assert(v@ =~= old(v)@ + two_digits(n as nat));
}

/// Writes a number of seconds as `HH:MM:SS`, the target of a `REL_TIME` seek.
pub fn format_hms(secs: u64) -> (r: String)
    ensures
        r@ == hms_text(secs as nat),
{
    let mut v: Vec<char> = Vec::new();
    push_two_digits(&mut v, secs / 3600);
    v.push(':');
    push_two_digits(&mut v, (secs / 60) % 60);
    v.push(':');
    push_two_digits(&mut v, secs % 60);
    assert(v@ =~= hms_text(secs as nat));
    string_from_chars(&v)
}

/// The seconds of a time `H:M:S[.fraction]` whose hours, minutes and seconds are digits; the
/// fraction is dropped. Any other text, such as `NOT_IMPLEMENTED`, reads as 0.
pub open spec fn hms_seconds(s: Seq<char>) -> nat {
    let whole = match find_from(s, seq!['.'], 0) {
        Some(p) => s.subrange(0, p),
        None => s,
    };
    match find_from(whole, seq![':'], 0) {
        None => 0,
        Some(c1) => match find_from(whole, seq![':'], c1 + 1) {
            None => 0,
            Some(c2) => {
                let h = whole.subrange(0, c1);
                let m = whole.subrange(c1 + 1, c2);
                let sec = whole.subrange(c2 + 1, whole.len() as int);
                if h.len() > 0 && m.len() > 0 && sec.len() > 0 && all_digits(h) && all_digits(m)
                    && all_digits(sec) && decimal_value(h) * 3600 + decimal_value(m) * 60
                    + decimal_value(sec) <= u64::MAX {
                    decimal_value(h) * 3600 + decimal_value(m) * 60 + decimal_value(sec)
                } else {
                    0
                }
            },
        },
    }
}

fn digits_value(t: &Vec<char>) -> (r: Option<u64>)
    ensures
        match r {
            Some(v) => t@.len() > 0 && all_digits(t@) && v as nat == decimal_value(t@),
            None => !(t@.len() > 0 && all_digits(t@) && decimal_value(t@) <= u64::MAX),
        },
{
    if t.len() > 0 && t[0] == '+' {
        return None;
    }
    let r = parse_u64(t);
    proof {
        if t@.len() > 0 && t@[0] != '+' {
            assert(t@ == (if t@.len() > 0 && t@[0] == '+' { t@.drop_first() } else { t@ }));
        }
    }
    r
}

/// Reads a time of a position reply (`RelTime`, `TrackDuration`) as whole seconds.
pub fn parse_hms(s: &str) -> (r: u64)
    ensures
        r as nat == hms_seconds(s@),
{
    let v = chars_of(s);
    assert(v@.len() == v.len());
    proof {
        lemma_find_from_occurs(v@, seq!['.'], 0);
    }
    let whole = match find_char_from(&v, '.', 0) {
        Some(p) => slice_chars(&v, 0, p),
        None => v,
    };
    assert(whole@.len() == whole.len());
    proof {
        lemma_find_from_occurs(whole@, seq![':'], 0);
    }
    let c1 = match find_char_from(&whole, ':', 0) {
        Some(c) => c,
        None => {
            return 0;
        },
    };
    proof {
        lemma_find_from_occurs(whole@, seq![':'], c1 + 1);
    }
    let c2 = match find_char_from(&whole, ':', c1 + 1) {
        Some(c) => c,
        None => {
            return 0;
        },
    };
    let h = digits_value(&slice_chars(&whole, 0, c1));
    let m = digits_value(&slice_chars(&whole, c1 + 1, c2));
    let sec = digits_value(&slice_chars(&whole, c2 + 1, whole.len()));
    match (h, m, sec) {
        (Some(h), Some(m), Some(sec)) => {
            if h > (u64::MAX - sec) / 3600 {
                return 0;
            }
            let hs = h * 3600;
            if m > (u64::MAX - sec - hs) / 60 {
                proof {
                    assert(m * 60 > u64::MAX - sec - hs) by (nonlinear_arith)
                        requires m > (u64::MAX - sec - hs) / 60;
                }
                return 0;
            }
            proof {
                assert(m * 60 <= u64::MAX - sec - hs) by (nonlinear_arith)
                    requires m <= (u64::MAX - sec - hs) / 60;
            }
            hs + m * 60 + sec
        },
        _ => 0,
    }
}

// ---------------------------------------------------------------------------
// Arguments of the actions.

pub open spec fn instance_text() -> Seq<char> {
    "<InstanceID>0</InstanceID>"@
}

/// Arguments of `Pause`, `Stop`, `GetPositionInfo` and `GetTransportInfo`.
pub fn instance_args() -> (r: String)
    ensures
        r@ == instance_text(),
{
    String::from_str("<InstanceID>0</InstanceID>")
}

/// Arguments of `Play`, at normal speed.
pub fn play_args() -> (r: String)
    ensures
        r@ == instance_text() + "<Speed>1</Speed>"@,
{
    let mut v = chars_of("<InstanceID>0</InstanceID>");
    append_chars(&mut v, &chars_of("<Speed>1</Speed>"));
    string_from_chars(&v)
}

/// Arguments of `SetAVTransportURI`: the address and its metadata, escaped.
pub fn set_uri_args(uri: &str, metadata: &str) -> (r: String)
    ensures
        r@ == instance_text() + "<CurrentURI>"@ + xml_escaped(uri@) + "</CurrentURI>"@
            + "<CurrentURIMetaData>"@ + xml_escaped(metadata@) + "</CurrentURIMetaData>"@,
{
    let mut v = chars_of("<InstanceID>0</InstanceID>");
    append_chars(&mut v, &chars_of("<CurrentURI>"));
    append_chars(&mut v, &chars_of(xml_escape(uri).as_str()));
    append_chars(&mut v, &chars_of("</CurrentURI>"));
    append_chars(&mut v, &chars_of("<CurrentURIMetaData>"));
    append_chars(&mut v, &chars_of(xml_escape(metadata).as_str()));
    append_chars(&mut v, &chars_of("</CurrentURIMetaData>"));
    string_from_chars(&v)
}

/// Arguments of `Seek` to a position in seconds from the start of the track.
pub fn seek_args(secs: u64) -> (r: String)
    ensures
        r@ == instance_text() + "<Unit>REL_TIME</Unit><Target>"@ + hms_text(secs as nat)
            + "</Target>"@,
{
    let mut v = chars_of("<InstanceID>0</InstanceID>");
    append_chars(&mut v, &chars_of("<Unit>REL_TIME</Unit><Target>"));
    append_chars(&mut v, &chars_of(format_hms(secs).as_str()));
    append_chars(&mut v, &chars_of("</Target>"));
    string_from_chars(&v)
}

/// Arguments of `GetVolume` on the master channel.
pub fn get_volume_args() -> (r: String)
    ensures
        r@ == instance_text() + "<Channel>Master</Channel>"@,
{
    let mut v = chars_of("<InstanceID>0</InstanceID>");
    append_chars(&mut v, &chars_of("<Channel>Master</Channel>"));
    string_from_chars(&v)
}

/// A volume level within `[0, 100]`.
pub open spec fn clamped_volume(level: i64) -> u64 {
    if level < 0 {
        0
    } else if level > 100 {
        100
    } else {
        level as u64
    }
}

/// Brings a requested volume into `[0, 100]`.
pub fn clamp_volume(level: i64) -> (r: u64)
    ensures
        r == clamped_volume(level),
        r as int == if level < 0 { 0 } else if level > 100 { 100 } else { level as int },
{
    if level < 0 {
        0
    } else if level > 100 {
        100
    } else {
        level as u64
    }
}

/// Arguments of `SetVolume` on the master channel, with the level clamped to `[0, 100]`.
pub fn set_volume_args(level: i64) -> (r: String)
    ensures
        r@ == instance_text() + "<Channel>Master</Channel><DesiredVolume>"@ + decimal_text(
            clamped_volume(level) as nat,
        ) + "</DesiredVolume>"@,
{
    let mut v = chars_of("<InstanceID>0</InstanceID>");
    append_chars(&mut v, &chars_of("<Channel>Master</Channel><DesiredVolume>"));
    push_decimal(&mut v, clamp_volume(level));
    append_chars(&mut v, &chars_of("</DesiredVolume>"));
    string_from_chars(&v)
}

// ---------------------------------------------------------------------------
// Answers.

/// The transport states a renderer reports.
#[derive(Debug, PartialEq, Eq, Structural, Clone, Copy)]
pub enum TransportState {
    Stopped,
    Playing,
    PausedPlayback,
    Transitioning,
    NoMediaPresent,
}

/// The state that a `CurrentTransportState` value names.
pub open spec fn transport_state_of(s: Seq<char>) -> Option<TransportState> {
    if s == "STOPPED"@ {
        Some(TransportState::Stopped)
    } else if s == "PLAYING"@ {
        Some(TransportState::Playing)
    } else if s == "PAUSED_PLAYBACK"@ {
        Some(TransportState::PausedPlayback)
    } else if s == "TRANSITIONING"@ {
        Some(TransportState::Transitioning)
    } else if s == "NO_MEDIA_PRESENT"@ {
        Some(TransportState::NoMediaPresent)
    } else {
        None
    }
}

/// Reads a `CurrentTransportState` value.
pub fn parse_transport_state(s: &str) -> (r: Option<TransportState>)
    ensures
        r == transport_state_of(s@),
{
    if str_eq(s, "STOPPED") {
        Some(TransportState::Stopped)
    } else if str_eq(s, "PLAYING") {
        Some(TransportState::Playing)
    } else if str_eq(s, "PAUSED_PLAYBACK") {
        Some(TransportState::PausedPlayback)
    } else if str_eq(s, "TRANSITIONING") {
        Some(TransportState::Transitioning)
    } else if str_eq(s, "NO_MEDIA_PRESENT") {
        Some(TransportState::NoMediaPresent)
    } else {
        None
    }
}

/// Reads the `CurrentVolume` of a volume reply.
pub fn parse_volume(s: &str) -> (r: Option<u64>)
    ensures
        match r {
            Some(v) => parse_u64_spec(s@) == Some(v as nat),
            None => parse_u64_spec(s@) is None,
        },
{
    parse_u64(&chars_of(s))
}

/// Reads a position reply: the seconds of `RelTime` and of `TrackDuration`, each missing
/// value or unreadable time counting as 0.
pub fn position_from_reply(rel_time: Option<&str>, track_duration: Option<&str>) -> (r: (u64, u64))
    ensures
        r.0 as nat == match rel_time {
            Some(t) => hms_seconds(t@),
            None => 0,
        },
        r.1 as nat == match track_duration {
            Some(t) => hms_seconds(t@),
            None => 0,
        },
{
    let current = match rel_time {
        Some(t) => parse_hms(t),
        None => 0,
    };
    let total = match track_duration {
        Some(t) => parse_hms(t),
        None => 0,
    };
    (current, total)
}

// ---------------------------------------------------------------------------
// Discovery.

/// No device before position `i` has the same UDN.
pub open spec fn first_with_udn(udns: Seq<Seq<char>>, i: int) -> bool {
    forall|j: int| 0 <= j < i ==> udns[j] != udns[i]
}

pub open spec fn udn_views(u: Seq<String>) -> Seq<Seq<char>> {
    u.map_values(|s: String| s@)
}

/// Positions of the discovered devices to keep: the first device of each UDN, in order.
pub fn first_of_each_udn(udns: &Vec<String>) -> (r: Vec<usize>)
    ensures
        forall|k: int| 0 <= k < r@.len() ==> #[trigger] r@[k] < udns@.len() && first_with_udn(
            udn_views(udns@),
            r@[k] as int,
        ),
        forall|k: int, l: int| 0 <= k < l < r@.len() ==> #[trigger] r@[k] < #[trigger] r@[l],
        forall|i: int|
            0 <= i < udns@.len() && #[trigger] first_with_udn(udn_views(udns@), i) ==> exists|k: int|
                0 <= k < r@.len() && #[trigger] r@[k] == i,
{
    let ghost v = udn_views(udns@);
    let mut r: Vec<usize> = Vec::new();
    let mut i: usize = 0;
    while i < udns.len()
        invariant
            i <= udns@.len(),
            v == udn_views(udns@),
            forall|k: int| 0 <= k < r@.len() ==> #[trigger] r@[k] < i && first_with_udn(v, r@[k] as int),
            forall|k: int, l: int| 0 <= k < l < r@.len() ==> #[trigger] r@[k] < #[trigger] r@[l],
            forall|m: int| 0 <= m < i && #[trigger] first_with_udn(v, m) ==> exists|k: int| 0 <= k < r@.len() && #[trigger] r@[k] == m,
        decreases udns.len() - i,
    {
        let mut j: usize = 0;
        let mut seen = false;
        while j < i
            invariant
                j <= i < udns@.len(),
                v == udn_views(udns@),
                seen ==> !first_with_udn(v, i as int),
                !seen ==> forall|x: int| 0 <= x < j ==> v[x] != v[i as int],
            decreases i - j,
        {
            if str_eq(udns[j].as_str(), udns[i].as_str()) {
                seen = true;
                assert(v[j as int] == v[i as int]);
            }
            j += 1;
        }
        let ghost old_r = r@;
        if !seen {
            r.push(i);
            assert(r@[r@.len() - 1] == i);
        }
        assert forall|m: int| 0 <= m < i + 1 && #[trigger] first_with_udn(v, m) implies exists|k: int|
            0 <= k < r@.len() && #[trigger] r@[k] == m by {
            if m < i {
                let k = choose|k: int| 0 <= k < old_r.len() && old_r[k] == m;
                assert(r@[k] == m);
            } else {
                assert(r@[r@.len() - 1] == i);
            }
        }
        i += 1;
    }
    r
}

} // verus!
