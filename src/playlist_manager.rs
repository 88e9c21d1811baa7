//! The room's queue as this engine sees it, and the decisions of its sync loops.
use crate::text::{append_chars, chars_of, parse_u64, parse_u64_spec, starts_with, starts_with_exec, slice_chars, str_eq, string_from_chars};
use crate::error::EngineError;
use crate::utils::{extract_bv_id, key_of};
use vstd::prelude::*;
use vstd::utf8::encode_utf8;

verus! {

/// Hash sent to the server while no list has been received.
pub const EMPTY_LIST_HASH: &'static str = "EMPTY_LIST_HASH";

pub open spec fn opt_view(o: Option<String>) -> Option<Seq<char>> {
    match o {
        Some(s) => Some(s@),
        None => None,
    }
}

/// The texts of a sequence of strings.
pub open spec fn views(v: Seq<String>) -> Seq<Seq<char>> {
    v.map_values(|s: String| s@)
}

pub open spec fn opt_key(o: Option<Seq<char>>) -> Option<Seq<char>> {
    match o {
        Some(u) => Some(key_of(u)),
        None => None,
    }
}

/// The fields of a song-list reply that the engine reads, each as the reply holds it:
/// `None` where the field is missing or of another JSON type.
#[derive(Debug, Clone)]
pub struct SongListReply {
    /// `changed`.
    pub changed: Option<bool>,
    /// `hash`.
    pub hash: Option<String>,
    /// `list.queued[i].url` for each queued song, in order.
    pub queued_urls: Vec<Option<String>>,
    /// `list.singing.url`.
    pub singing_url: Option<String>,
}

/// The queue as last received: keys of the queued songs, key of the song being sung, hash.
pub struct PlaylistState {
    pub queued: Seq<Seq<char>>,
    pub singing: Option<Seq<char>>,
    pub hash: Option<Seq<char>>,
}

/// Keys of the queued songs that carry a media reference, in order.
pub open spec fn keys_of_urls(urls: Seq<Option<Seq<char>>>) -> Seq<Seq<char>>
    decreases urls.len(),
{
    if urls.len() == 0 {
        Seq::empty()
    } else {
        let rest = keys_of_urls(urls.drop_last());
        match urls.last() {
            Some(u) => rest.push(key_of(u)),
            None => rest,
        }
    }
}

pub open spec fn reply_urls(reply: SongListReply) -> Seq<Option<Seq<char>>> {
    reply.queued_urls@.map_values(|u: Option<String>| opt_view(u))
}

/// The state after a reply: unchanged unless the reply says `changed: true`; then the keys of
/// its songs and its hash (`EMPTY_LIST_HASH` where it has none).
pub open spec fn state_after(old: PlaylistState, reply: SongListReply) -> PlaylistState {
    if reply.changed == Some(true) {
        PlaylistState {
            queued: keys_of_urls(reply_urls(reply)),
            singing: opt_key(opt_view(reply.singing_url)),
            hash: Some(
                match reply.hash {
                    Some(h) => h@,
                    None => EMPTY_LIST_HASH@,
                },
            ),
        }
    } else {
        old
    }
}

/// The local view of one room's queue.
pub struct PlaylistManager {
    url: String,
    room_id: String,
    hash: Option<String>,
    playlist: Vec<String>,
    song_playing: Option<String>,
}

impl View for PlaylistManager {
    type V = PlaylistState;

    closed spec fn view(&self) -> PlaylistState {
        PlaylistState {
            queued: views(self.playlist@),
            singing: opt_view(self.song_playing),
            hash: opt_view(self.hash),
        }
    }
}

fn clone_opt(o: &Option<String>) -> (r: Option<String>)
    ensures
        opt_view(r) == opt_view(*o),
{
    match o {
        Some(s) => Some(s.clone()),
        None => None,
    }
}

impl PlaylistManager {
    pub closed spec fn base_url(&self) -> Seq<char> {
        self.url@
    }

    pub closed spec fn room(&self) -> Seq<char> {
        self.room_id@
    }

    /// The hash to send: the last one received, or `EMPTY_LIST_HASH`.
    pub open spec fn hash_to_send(&self) -> Seq<char> {
        match self@.hash {
            Some(h) => h,
            None => EMPTY_LIST_HASH@,
        }
    }

    /// A manager for room `room_id` of the server at `url`, with nothing received yet.
    pub fn new(url: &str, room_id: String) -> (r: Self)
        ensures
            r.base_url() == url@,
            r.room() == room_id@,
            r@.queued.len() == 0,
            r@.singing is None,
            r@.hash is None,
    {
        PlaylistManager {
            url: String::from_str(url),
            room_id,
            hash: None,
            playlist: Vec::new(),
            song_playing: None,
        }
    }

    fn hash_or_sentinel(&self) -> (r: String)
        ensures
            r@ == self.hash_to_send(),
    {
        match &self.hash {
            Some(h) => h.clone(),
            None => String::from_str(EMPTY_LIST_HASH),
        }
    }

    /// Address of the song-list request: `<url>/api/songListInfo?roomId=<id>&lastHash=<h>`.
    pub fn song_list_url(&self) -> (r: String)
        ensures
            r@ == self.base_url() + "/api/songListInfo?roomId="@ + self.room() + "&lastHash="@
                + self.hash_to_send(),
    {
        let mut v = chars_of(self.url.as_str());
        append_chars(&mut v, &chars_of("/api/songListInfo?roomId="));
        append_chars(&mut v, &chars_of(self.room_id.as_str()));
        append_chars(&mut v, &chars_of("&lastHash="));
        let h = self.hash_or_sentinel();
        append_chars(&mut v, &chars_of(h.as_str()));
        string_from_chars(&v)
    }

    /// Address of the skip request: `<url>/api/nextSong?roomId=<id>`.
    pub fn next_song_url(&self) -> (r: String)
        ensures
            r@ == self.base_url() + "/api/nextSong?roomId="@ + self.room(),
    {
        let mut v = chars_of(self.url.as_str());
        append_chars(&mut v, &chars_of("/api/nextSong?roomId="));
        append_chars(&mut v, &chars_of(self.room_id.as_str()));
        string_from_chars(&v)
    }

    /// The `idArrayHash` that the skip request carries.
    pub fn next_song_hash(&self) -> (r: String)
        ensures
            r@ == self.hash_to_send(),
    {
        self.hash_or_sentinel()
    }

    /// Takes in a song-list reply and returns the key of the song being sung afterwards.
    pub fn apply_song_list(&mut self, reply: &SongListReply) -> (r: Option<String>)
        ensures
            final(self)@ == state_after(old(self)@, *reply),
            opt_view(r) == final(self)@.singing,
            final(self).base_url() == old(self).base_url(),
            final(self).room() == old(self).room(),
    {
        if reply.changed != Some(true) {
            return clone_opt(&self.song_playing);
        }
        let mut keys: Vec<String> = Vec::new();
        let mut i: usize = 0;
        while i < reply.queued_urls.len()
            invariant
                i <= reply.queued_urls@.len(),
                views(keys@) == keys_of_urls(
                    reply_urls(*reply).subrange(0, i as int),
                ),
            decreases reply.queued_urls.len() - i,
        {
            assert(reply_urls(*reply).subrange(0, i + 1).drop_last() =~= reply_urls(
                *reply,
            ).subrange(0, i as int));
            match &reply.queued_urls[i] {
                Some(u) => {
                    let k = extract_bv_id(u.as_str());
                    keys.push(k);
                },
                None => {},
            }
            i += 1;
            assert(views(keys@) =~= keys_of_urls(
                reply_urls(*reply).subrange(0, i as int),
            ));
        }
        assert(reply_urls(*reply).subrange(0, reply.queued_urls@.len() as int) =~= reply_urls(
            *reply,
        ));
        let singing = match &reply.singing_url {
            Some(u) => Some(extract_bv_id(u.as_str())),
            None => None,
        };
        let new_hash = match &reply.hash {
            Some(h) => h.clone(),
            None => String::from_str(EMPTY_LIST_HASH),
        };
        self.playlist = keys;
        self.song_playing = clone_opt(&singing);
        self.hash = Some(new_hash);
        singing
    }

    /// Key of the song being sung, as last received.
    pub fn get_song_playing(&self) -> (r: Option<String>)
        ensures
            opt_view(r) == self@.singing,
    {
        clone_opt(&self.song_playing)
    }

    /// Keys of the queued songs, as last received.
    pub fn playlist(&self) -> (r: Vec<String>)
        ensures
            views(r@) == self@.queued,
    {
        let mut out: Vec<String> = Vec::new();
        let mut i: usize = 0;
        while i < self.playlist.len()
            invariant
                i <= self.playlist@.len(),
                out@.len() == i,
                views(out@) == views(self.playlist@.subrange(0, i as int)),
            decreases self.playlist.len() - i,
        {
            let c = self.playlist[i].clone();
            assert(c@ == self.playlist@[i as int]@);
            let ghost before = out@;
            out.push(c);
            assert(out@ == before.push(c));
            i += 1;
            assert forall|j: int| 0 <= j < i implies #[trigger] views(out@)[j] == views(
                self.playlist@.subrange(0, i as int),
            )[j] by {
                assert(self.playlist@.subrange(0, i as int)[j] == self.playlist@[j]);
                if j < i - 1 {
                    assert(out@[j] == before[j]);
                    assert(self.playlist@.subrange(0, i - 1)[j] == self.playlist@[j]);
                    assert(views(before)[j] == views(self.playlist@.subrange(0, i - 1))[j]);
                } else {
                    assert(out@[j] == c);
                }
            }
            assert(views(out@) =~= views(self.playlist@.subrange(0, i as int)));
        }
        assert(self.playlist@.subrange(0, self.playlist@.len() as int) =~= self.playlist@);
        out
    }

    /// The hash last received.
    pub fn hash(&self) -> (r: Option<String>)
        ensures
            opt_view(r) == self@.hash,
    {
        clone_opt(&self.hash)
    }
}

/// The outcome of a skip request whose reply carried `success` as given.
pub fn next_song_outcome(success: Option<bool>) -> (r: Result<(), EngineError>)
    ensures
        r is Ok <==> success == Some(true),
        r is Err ==> r == Err::<(), EngineError>(EngineError::UpstreamRejected),
{
    if success == Some(true) {
        Ok(())
    } else {
        Err(EngineError::UpstreamRejected)
    }
}

// ---------------------------------------------------------------------------
// When a change of song is announced.

/// What the tracker announces when it observes `key` after `observed`: the key, when it is
/// a song and differs from the last one observed.
pub open spec fn fire_of(observed: Option<Seq<char>>, key: Option<Seq<char>>) -> Option<Seq<char>> {
    if key != observed {
        key
    } else {
        None
    }
}

fn opt_eq(a: &Option<String>, b: &Option<String>) -> (r: bool)
    ensures
        r == (opt_view(*a) == opt_view(*b)),
{
    match (a, b) {
        (Some(x), Some(y)) => str_eq(x.as_str(), y.as_str()),
        (None, None) => true,
        _ => false,
    }
}

/// Remembers the last song key the sync loop observed, across reconnects, so that each
/// change of song is announced once.
pub struct SongChangeTracker {
    observed: Option<String>,
}

impl View for SongChangeTracker {
    type V = Option<Seq<char>>;

    closed spec fn view(&self) -> Option<Seq<char>> {
        opt_view(self.observed)
    }
}

impl SongChangeTracker {
    /// A tracker that has observed nothing.
    pub fn new() -> (r: Self)
        ensures
            r@ is None,
    {
        SongChangeTracker { observed: None }
    }

    /// A tracker that starts from a key already known, such as the one held by the manager.
    pub fn starting_from(key: Option<String>) -> (r: Self)
        ensures
            r@ == opt_view(key),
    {
        SongChangeTracker { observed: key }
    }

    /// Observes the singing key that a fetch returned; returns the key to cast, if any.
    pub fn observe(&mut self, key: Option<String>) -> (r: Option<String>)
        ensures
            opt_view(r) == fire_of(old(self)@, opt_view(key)),
            final(self)@ == opt_view(key),
    {
        if opt_eq(&key, &self.observed) {
            self.observed = key;
            None
        } else {
            self.observed = clone_opt(&key);
            key
        }
    }
}

impl PlaylistManager {
    /// Takes in a song-list reply, whichever request it answers (a connection, an update, a
    /// skip, a heartbeat), and shows the key then being sung to `tracker`; returns the key to
    /// cast, if any.
    pub fn take_reply(&mut self, tracker: &mut SongChangeTracker, reply: &SongListReply) -> (r: Option<String>)
        ensures
            final(self)@ == state_after(old(self)@, *reply),
            final(self).base_url() == old(self).base_url(),
            final(self).room() == old(self).room(),
            opt_view(r) == fire_of(old(tracker)@, final(self)@.singing),
            final(tracker)@ == final(self)@.singing,
    {
        let key = self.apply_song_list(reply);
        tracker.observe(key)
    }
}

/// The hash that a WebSocket frame announces: `Some` exactly when its `type` is `UPDATE`,
/// with an empty hash where the frame has none.
pub fn update_hash(frame_type: Option<&str>, frame_hash: Option<&str>) -> (r: Option<String>)
    ensures
        r is Some <==> (frame_type matches Some(t) && t@ == "UPDATE"@),
        r matches Some(h) ==> h@ == match frame_hash {
            Some(x) => x@,
            None => Seq::<char>::empty(),
        },
{
    let is_update = match frame_type {
        Some(t) => str_eq(t, "UPDATE"),
        None => false,
    };
    if !is_update {
        return None;
    }
    match frame_hash {
        Some(h) => Some(String::from_str(h)),
        None => Some(String::new()),
    }
}

/// Whether an announced hash calls for a fetch: it differs from the hash held (an empty one
/// when none is).
pub fn should_reconcile(incoming_hash: &str, current_hash: &Option<String>) -> (r: bool)
    ensures
        r == (incoming_hash@ != match opt_view(*current_hash) {
            Some(h) => h,
            None => Seq::<char>::empty(),
        }),
{
    match current_hash {
        Some(h) => !str_eq(incoming_hash, h.as_str()),
        None => {
            proof {
                if incoming_hash@.len() == 0 {
                    assert(incoming_hash@ =~= Seq::<char>::empty());
                }
            }
            !incoming_hash.is_empty()
        },
    }
}

/// The last key observed after a sequence of fetches that started from `start`.
pub open spec fn last_observed(start: Option<Seq<char>>, keys: Seq<Option<Seq<char>>>) -> Option<Seq<char>> {
    if keys.len() == 0 {
        start
    } else {
        keys.last()
    }
}

/// How many casts a tracker that starts from `start` announces along `keys`.
pub open spec fn fires_along(start: Option<Seq<char>>, keys: Seq<Option<Seq<char>>>) -> nat
    decreases keys.len(),
{
    if keys.len() == 0 {
        0
    } else {
        fires_along(start, keys.drop_last()) + if fire_of(
            last_observed(start, keys.drop_last()),
            keys.last(),
        ) is Some {
            1nat
        } else {
            0nat
        }
    }
}

/// Position `i` holds a song whose key differs from the one before it (none before the first).
pub open spec fn changes_at(keys: Seq<Option<Seq<char>>>, i: int) -> bool {
    keys[i] is Some && keys[i] != (if i == 0 { None } else { keys[i - 1] })
}

/// The number of positions below `n` that hold a change of song.
pub open spec fn key_changes(keys: Seq<Option<Seq<char>>>, n: nat) -> nat
    decreases n,
{
    if n == 0 {
        0
    } else {
        key_changes(keys, (n - 1) as nat) + if changes_at(keys, n - 1) {
            1nat
        } else {
            0nat
        }
    }
}

/// Along any sequence of fetched singing keys, starting with nothing observed, the casts
/// announced are as many as the positions `i` whose key is a song and differs from key `i-1`.
pub proof fn lemma_casts_count_key_changes(keys: Seq<Option<Seq<char>>>)
    ensures
        fires_along(None, keys) == key_changes(keys, keys.len()),
    decreases keys.len(),
{
    if keys.len() > 0 {
        let prefix = keys.drop_last();
        lemma_casts_count_key_changes(prefix);
        lemma_key_changes_prefix(keys, prefix.len());
        let i = keys.len() - 1;
        if i > 0 {
            assert(last_observed(None, prefix) == keys[i - 1]);
        }
    }
}

proof fn lemma_key_changes_prefix(keys: Seq<Option<Seq<char>>>, n: nat)
    requires
        n <= keys.len(),
    ensures
        key_changes(keys.subrange(0, n as int), n) == key_changes(keys, n),
    decreases n,
{
    if n > 0 {
        let m = (n - 1) as nat;
        lemma_key_changes_prefix(keys, m);
        lemma_key_changes_same(keys.subrange(0, n as int), keys.subrange(0, m as int), m);
        let sub = keys.subrange(0, n as int);
        assert(sub[m as int] == keys[m as int]);
        if m > 0 {
            assert(sub[m - 1] == keys[m - 1]);
        }
    }
}

proof fn lemma_key_changes_same(a: Seq<Option<Seq<char>>>, b: Seq<Option<Seq<char>>>, n: nat)
    requires
        n <= a.len(),
        n <= b.len(),
        forall|j: int| 0 <= j < n ==> a[j] == b[j],
    ensures
        key_changes(a, n) == key_changes(b, n),
    decreases n,
{
    if n > 0 {
        lemma_key_changes_same(a, b, (n - 1) as nat);
    }
}

/// Once a song has been cast, fetches that keep returning its key, such as the one made on
/// each reconnect, announce nothing more.
pub proof fn lemma_unchanged_key_casts_nothing(key: Seq<char>, n: nat)
    ensures
        fires_along(Some(key), Seq::new(n, |i: int| Some(key))) == 0,
    decreases n,
{
    if n > 0 {
        let keys = Seq::new(n, |i: int| Some(key));
        assert(keys.drop_last() =~= Seq::new((n - 1) as nat, |i: int| Some(key)));
        lemma_unchanged_key_casts_nothing(key, (n - 1) as nat);
    }
}

// ---------------------------------------------------------------------------
// Address of the room's WebSocket.

/// Bytes that percent-encoding leaves as they are: ASCII letters, digits, `-`, `.`, `_`, `~`.
pub open spec fn is_unreserved_byte(b: u8) -> bool {
    (48 <= b && b <= 57) || (65 <= b && b <= 90) || (97 <= b && b <= 122) || b == 45 || b == 46
        || b == 95 || b == 126
}

pub open spec fn hex_digit_upper(d: nat) -> char {
    if d < 10 {
        ((48 + d) as u8) as char
    } else {
        ((55 + d) as u8) as char
    }
}

/// Percent-encoding of a byte sequence, with capital hex digits.
pub open spec fn percent_encoded(bytes: Seq<u8>) -> Seq<char>
    decreases bytes.len(),
{
    if bytes.len() == 0 {
        Seq::empty()
    } else {
        let b = bytes.last();
        percent_encoded(bytes.drop_last()) + if is_unreserved_byte(b) {
            seq![b as char]
        } else {
            seq!['%', hex_digit_upper((b / 16) as nat), hex_digit_upper((b % 16) as nat)]
        }
    }
}

/// Relies on `urlencoding::encode`: each byte of the UTF-8 form of `s` but ASCII letters,
/// digits, `-`, `.`, `_` and `~` becomes `%` and two capital hex digits.
#[verifier::external_body]
fn url_encode(s: &str) -> (r: String)
    ensures
        r@ == percent_encoded(encode_utf8(s@)),
{
    urlencoding::encode(s).into_owned()
}

/// The serialization of the URL that a text parses as, if it parses.
pub uninterp spec fn url_serialization(s: Seq<char>) -> Option<Seq<char>>;

/// Relies on `url::Url::parse` and on `From<Url> for String`, which gives the serialization.
#[verifier::external_body]
fn parse_url_text(s: &str) -> (r: Option<String>)
    ensures
        opt_view(r) == url_serialization(s@),
{
    url::Url::parse(s).ok().map(String::from)
}

/// A text without its trailing `/` characters.
pub open spec fn trim_slashes(s: Seq<char>) -> Seq<char>
    decreases s.len(),
{
    if s.len() > 0 && s.last() == '/' {
        trim_slashes(s.drop_last())
    } else {
        s
    }
}

/// `http:` becomes `ws:` and `https:` becomes `wss:`; other schemes stay.
pub open spec fn websocket_scheme_of(u: Seq<char>) -> Seq<char> {
    if starts_with(u, "https:"@) {
        "wss:"@ + u.subrange(6, u.len() as int)
    } else if starts_with(u, "http:"@) {
        "ws:"@ + u.subrange(5, u.len() as int)
    } else {
        u
    }
}

/// The WebSocket request before parsing: `<base>/api/ws?roomId=<id>&nickname=<encoded>`.
pub open spec fn ws_request_text(base: Seq<char>, room: Seq<char>, nickname: Seq<char>) -> Seq<char> {
    trim_slashes(base) + "/api/ws?roomId="@ + room + "&nickname="@ + percent_encoded(
        encode_utf8(nickname),
    )
}

/// The WebSocket address: the request text, parsed and with its scheme rewritten; the
/// text as it is where it does not parse.
pub open spec fn ws_url_of(base: Seq<char>, room: Seq<char>, nickname: Seq<char>) -> Seq<char> {
    let t = ws_request_text(base, room, nickname);
    match url_serialization(t) {
        Some(u) => websocket_scheme_of(u),
        None => t,
    }
}

/// Rewrites an `http`/`https` address to the `ws`/`wss` scheme.
pub fn websocket_scheme(url: &str) -> (r: String)
    ensures
        r@ == websocket_scheme_of(url@),
{
    let u = chars_of(url);
    let https = chars_of("https:");
    let http = chars_of("http:");
    if starts_with_exec(&u, &https) {
        assert(https@.len() == 6) by {
            reveal_strlit("https:");
        }
        let mut v = chars_of("wss:");
        append_chars(&mut v, &slice_chars(&u, 6, u.len()));
        string_from_chars(&v)
    } else if starts_with_exec(&u, &http) {
        assert(http@.len() == 5) by {
            reveal_strlit("http:");
        }
        let mut v = chars_of("ws:");
        append_chars(&mut v, &slice_chars(&u, 5, u.len()));
        string_from_chars(&v)
    } else {
        String::from_str(url)
    }
}

fn trim_slashes_exec(s: &Vec<char>) -> (r: Vec<char>)
    ensures
        r@ == trim_slashes(s@),
{
    let mut n: usize = s.len();
    assert(s@.subrange(0, n as int) =~= s@);
    while n > 0 && s[n - 1] == '/'
        invariant
            n <= s@.len(),
            trim_slashes(s@) == trim_slashes(s@.subrange(0, n as int)),
        decreases n,
    {
        assert(s@.subrange(0, n as int).drop_last() =~= s@.subrange(0, n - 1));
        n -= 1;
    }
    assert(s@.subrange(0, n as int).len() > 0 ==> s@.subrange(0, n as int).last() == s@[n - 1]);
    slice_chars(s, 0, n)
}

impl PlaylistManager {
    /// Address of the room's WebSocket for a listener called `nickname`.
    pub fn ws_url(&self, nickname: &str) -> (r: String)
        ensures
            r@ == ws_url_of(self.base_url(), self.room(), nickname@),
    {
        let mut v = trim_slashes_exec(&chars_of(self.url.as_str()));
        append_chars(&mut v, &chars_of("/api/ws?roomId="));
        append_chars(&mut v, &chars_of(self.room_id.as_str()));
        append_chars(&mut v, &chars_of("&nickname="));
        let enc = url_encode(nickname);
        append_chars(&mut v, &chars_of(enc.as_str()));
        let text = string_from_chars(&v);
        match parse_url_text(text.as_str()) {
            Some(u) => websocket_scheme(u.as_str()),
            None => text,
        }
    }
}

// ---------------------------------------------------------------------------
// Settings of the sync loops.

/// Which loop keeps the queue in step.
#[derive(Debug, PartialEq, Eq, Structural, Clone, Copy)]
pub enum SyncMode {
    WebSocket,
    Polling,
}

pub uninterp spec fn upper_of(s: Seq<char>) -> Seq<char>;

/// Relies on `str::to_uppercase`: the result depends on the characters alone.
#[verifier::external_body]
fn uppercase(s: &str) -> (r: String)
    ensures
        r@ == upper_of(s@),
{
    s.to_uppercase()
}

/// The mode for a setting already in upper case: polling for `POLLING`, else the WebSocket.
pub fn sync_mode_for_upper(upper: &str) -> (r: SyncMode)
    ensures
        r == if upper@ == "POLLING"@ { SyncMode::Polling } else { SyncMode::WebSocket },
{
    if str_eq(upper, "POLLING") {
        SyncMode::Polling
    } else {
        SyncMode::WebSocket
    }
}

/// The mode that a sync-mode setting names, compared without case; the WebSocket when unset.
pub fn sync_mode(setting: Option<&str>) -> (r: SyncMode)
    ensures
        r == match setting {
            Some(s) => if upper_of(s@) == "POLLING"@ { SyncMode::Polling } else { SyncMode::WebSocket },
            None => SyncMode::WebSocket,
        },
{
    match setting {
        Some(s) => {
            let u = uppercase(s);
            sync_mode_for_upper(u.as_str())
        },
        None => SyncMode::WebSocket,
    }
}

/// Seconds between two heartbeats when no setting says otherwise.
pub const DEFAULT_HEARTBEAT_SECS: u64 = 30;

/// The heartbeat interval that a setting names, in seconds; 30 when it is unset or no number.
pub fn heartbeat_secs(setting: Option<&str>) -> (r: u64)
    ensures
        r as nat == match setting {
            Some(s) => match parse_u64_spec(s@) {
                Some(v) => v,
                None => DEFAULT_HEARTBEAT_SECS as nat,
            },
            None => DEFAULT_HEARTBEAT_SECS as nat,
        },
{
    match setting {
        Some(s) => match parse_u64(&chars_of(s)) {
            Some(v) => v,
            None => DEFAULT_HEARTBEAT_SECS,
        },
        None => DEFAULT_HEARTBEAT_SECS,
    }
}

} // verus!
