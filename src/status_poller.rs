//! The once-a-second progress loop: what to report, and when to skip to the next song.
use crate::playlist_manager::opt_view;
use crate::mp4::{mp4_duration_of, mp4_duration_secs};
use crate::text::str_eq;
use vstd::prelude::*;

verus! {

/// Time between two progress ticks, in milliseconds.
pub const POLL_INTERVAL_MS: u64 = 1000;

/// Pause after an automatic skip, in milliseconds, so that one end of song gives one skip.
pub const ADVANCE_COOLDOWN_MS: u64 = 5000;

/// The song is within two seconds of its end, and past its first five.
pub open spec fn advance_due(total: u64, current: u64) -> bool {
    total > 0 && current > 5 && total > current && total - current <= 2
}

/// Whether the position calls for a skip to the next song.
pub fn should_auto_advance(total: u64, current: u64) -> (r: bool)
    ensures
        r == advance_due(total, current),
{
    total > 0 && current > 5 && total > current && total - current <= 2
}

/// What one tick reports and does.
#[derive(Debug, PartialEq, Eq, Structural, Clone, Copy)]
pub struct PollTick {
    /// Length to show, when one is known.
    pub length: Option<u64>,
    /// Position to show.
    pub position: u64,
    /// Ask the room for the next song.
    pub advance: bool,
    /// Wait before the next tick, in milliseconds.
    pub next_tick_in_ms: u64,
}

pub open spec fn cooldown_end(now_ms: u64) -> u64 {
    if now_ms as int + ADVANCE_COOLDOWN_MS as int <= u64::MAX {
        (now_ms + ADVANCE_COOLDOWN_MS) as u64
    } else {
        u64::MAX
    }
}

/// The tick at time `now_ms`, for a poller that suppresses skips before `quiet_until`.
pub open spec fn tick_of(quiet_until: u64, now_ms: u64, total: u64, current: u64) -> PollTick {
    let advance = now_ms >= quiet_until && advance_due(total, current);
    PollTick {
        length: if total > 0 { Some(total) } else { None },
        position: current,
        advance,
        next_tick_in_ms: if advance { ADVANCE_COOLDOWN_MS } else { POLL_INTERVAL_MS },
    }
}

/// Until when skips are suppressed after a tick.
pub open spec fn quiet_after(quiet_until: u64, now_ms: u64, total: u64, current: u64) -> u64 {
    if tick_of(quiet_until, now_ms, total, current).advance {
        cooldown_end(now_ms)
    } else {
        quiet_until
    }
}

/// State of the progress loop of one engine.
pub struct StatusPoller {
    quiet_until_ms: u64,
}

impl View for StatusPoller {
    type V = u64;

    /// The time before which no skip is asked for.
    closed spec fn view(&self) -> u64 {
        self.quiet_until_ms
    }
}

impl StatusPoller {
    pub fn new() -> (r: Self)
        ensures
            r@ == 0,
    {
        StatusPoller { quiet_until_ms: 0 }
    }

    /// One tick at time `now_ms`, with the song's length (0 when unknown) and the renderer's
    /// position, both in seconds.
    pub fn tick(&mut self, now_ms: u64, total: u64, current: u64) -> (r: PollTick)
        ensures
            r == tick_of(old(self)@, now_ms, total, current),
            final(self)@ == quiet_after(old(self)@, now_ms, total, current),
    {
        let advance = now_ms >= self.quiet_until_ms && should_auto_advance(total, current);
        if advance {
            self.quiet_until_ms = now_ms.saturating_add(ADVANCE_COOLDOWN_MS);
        }
        PollTick {
            length: if total > 0 { Some(total) } else { None },
            position: current,
            advance,
            next_tick_in_ms: if advance { ADVANCE_COOLDOWN_MS } else { POLL_INTERVAL_MS },
        }
    }
}

/// Outside the quiet time after a skip, a skip is asked for exactly when the song is near its
/// end; after one, no other is asked for during the next five seconds, whatever the positions
/// read (for clock readings that stay five seconds below the largest `u64`).
pub proof fn lemma_auto_advance_edge(
    quiet: u64,
    t1: u64,
    total1: u64,
    current1: u64,
    t2: u64,
    total2: u64,
    current2: u64,
)
    requires
        t1 <= t2,
        t2 < t1 + ADVANCE_COOLDOWN_MS,
        t1 + ADVANCE_COOLDOWN_MS <= u64::MAX,
    ensures
        tick_of(quiet, t1, total1, current1).advance ==> advance_due(total1, current1),
        t1 >= quiet ==> (tick_of(quiet, t1, total1, current1).advance <==> advance_due(
            total1,
            current1,
        )),
        tick_of(quiet, t1, total1, current1).advance ==> !tick_of(
            quiet_after(quiet, t1, total1, current1),
            t2,
            total2,
            current2,
        ).advance,
        tick_of(quiet, t1, total1, current1).advance ==> tick_of(
            quiet,
            t1,
            total1,
            current1,
        ).next_tick_in_ms >= ADVANCE_COOLDOWN_MS,
{
}

// ---------------------------------------------------------------------------
// Lengths of songs, by key.

/// Keys are unique among the entries.
pub open spec fn keys_unique(entries: Seq<(String, u32)>) -> bool {
    forall|i: int, j: int|
        0 <= i < entries.len() && 0 <= j < entries.len() && i != j ==> #[trigger] entries[i].0@
            != #[trigger] entries[j].0@
}

/// Song lengths in whole seconds, by key; entries are never evicted.
pub struct DurationCache {
    entries: Vec<(String, u32)>,
}

impl View for DurationCache {
    type V = Map<Seq<char>, u32>;

    closed spec fn view(&self) -> Map<Seq<char>, u32> {
        Map::new(
            |k: Seq<char>| exists|i: int| 0 <= i < self.entries@.len() && self.entries@[i].0@ == k,
            |k: Seq<char>|
                self.entries@[choose|i: int| 0 <= i < self.entries@.len() && self.entries@[i].0@ == k].1,
        )
    }
}

impl DurationCache {
    pub closed spec fn wf(&self) -> bool {
        keys_unique(self.entries@)
    }

    pub fn new() -> (r: Self)
        ensures
            r.wf(),
            r@ == Map::<Seq<char>, u32>::empty(),
    {
        let r = DurationCache { entries: Vec::new() };
        assert(r@ =~= Map::<Seq<char>, u32>::empty());
        r
    }

    fn index_of(&self, key: &str) -> (r: Option<usize>)
        requires
            self.wf(),
        ensures
            match r {
                Some(i) => i < self.entries@.len() && self.entries@[i as int].0@ == key@,
                None => forall|i: int| 0 <= i < self.entries@.len() ==> self.entries@[i].0@ != key@,
            },
    {
        let mut i: usize = 0;
        while i < self.entries.len()
            invariant
                i <= self.entries@.len(),
                forall|j: int| 0 <= j < i ==> self.entries@[j].0@ != key@,
            decreases self.entries.len() - i,
        {
            if str_eq(self.entries[i].0.as_str(), key) {
                return Some(i);
            }
            i += 1;
        }
        None
    }

    /// The length recorded for `key`.
    pub fn get(&self, key: &str) -> (r: Option<u32>)
        requires
            self.wf(),
        ensures
            match r {
                Some(d) => self@.contains_key(key@) && self@[key@] == d,
                None => !self@.contains_key(key@),
            },
    {
        match self.index_of(key) {
            Some(i) => {
                proof {
                    let k = key@;
                    let j = choose|j: int| 0 <= j < self.entries@.len() && self.entries@[j].0@ == k;
                    assert(j == i as int);
                }
                Some(self.entries[i].1)
            },
            None => None,
        }
    }

    /// Records the length of the song with key `key`.
    pub fn insert(&mut self, key: &str, secs: u32)
        requires
            old(self).wf(),
        ensures
            final(self).wf(),
            final(self)@ == old(self)@.insert(key@, secs),
    {
        match self.index_of(key) {
            Some(i) => {
                let k = self.entries[i].0.clone();
                self.entries.set(i, (k, secs));
                proof {
                    assert forall|a: int, b: int|
                        0 <= a < self.entries@.len() && 0 <= b < self.entries@.len() && a != b
                            implies #[trigger] self.entries@[a].0@ != #[trigger] self.entries@[b].0@ by {
                        assert(old(self).entries@[a].0@ == self.entries@[a].0@);
                        assert(old(self).entries@[b].0@ == self.entries@[b].0@);
                    }
                    assert forall|k: Seq<char>| #[trigger] self@.contains_key(k)
                        == old(self)@.insert(key@, secs).contains_key(k) by {
                        if exists|j: int| 0 <= j < old(self).entries@.len() && old(self).entries@[j].0@ == k {
                            let j = choose|j: int| 0 <= j < old(self).entries@.len() && old(self).entries@[j].0@ == k;
                            assert(self.entries@[j].0@ == k);
                        }
                        if exists|j: int| 0 <= j < self.entries@.len() && self.entries@[j].0@ == k {
                            let j = choose|j: int| 0 <= j < self.entries@.len() && self.entries@[j].0@ == k;
                            assert(old(self).entries@[j].0@ == k);
                        }
                    }
                    assert forall|k: Seq<char>| #[trigger] self@.contains_key(k) implies self@[k]
                        == old(self)@.insert(key@, secs)[k] by {
                        let j = choose|j: int| 0 <= j < self.entries@.len() && self.entries@[j].0@ == k;
                        if k == key@ {
                            assert(j == i as int);
                        } else {
                            let j0 = choose|j: int| 0 <= j < old(self).entries@.len() && old(self).entries@[j].0@ == k;
                            assert(old(self).entries@[j].0@ == k);
                            assert(j0 == j);
                        }
                    }
                    assert(self@ =~= old(self)@.insert(key@, secs));
                }
            },
            None => {
                self.entries.push((String::from_str(key), secs));
                proof {
                    let n = old(self).entries@.len();
                    assert(self.entries@[n as int].0@ == key@);
                    assert forall|a: int| 0 <= a < n implies self.entries@[a] == old(self).entries@[a] by {}
                    assert forall|k: Seq<char>| #[trigger] self@.contains_key(k)
                        == old(self)@.insert(key@, secs).contains_key(k) by {
                        if exists|j: int| 0 <= j < old(self).entries@.len() && old(self).entries@[j].0@ == k {
                            let j = choose|j: int| 0 <= j < old(self).entries@.len() && old(self).entries@[j].0@ == k;
                            assert(self.entries@[j].0@ == k);
                        }
                        if k == key@ {
                            assert(self.entries@[n as int].0@ == k);
                        }
                    }
                    assert forall|k: Seq<char>| #[trigger] self@.contains_key(k) implies self@[k]
                        == old(self)@.insert(key@, secs)[k] by {
                        let j = choose|j: int| 0 <= j < self.entries@.len() && self.entries@[j].0@ == k;
                        if k == key@ {
                            assert(j == n as int);
                        } else {
                            let j0 = choose|j: int| 0 <= j < old(self).entries@.len() && old(self).entries@[j].0@ == k;
                            assert(old(self).entries@[j0].0@ == k);
                            assert(self.entries@[j0].0@ == k);
                            assert(j0 == j);
                        }
                    }
                    assert(self@ =~= old(self)@.insert(key@, secs));
                }
            },
        }
    }

    /// Whether a request for `key` should have its bytes read for a duration: it asks for the
    /// whole file and no length is recorded yet.
    pub fn should_probe(&self, key: &str, has_range: bool) -> (r: bool)
        requires
            self.wf(),
        ensures
            r == (!has_range && !self@.contains_key(key@)),
    {
        !has_range && self.get(key).is_none()
    }

    /// Records the duration that the first bytes of a song's MP4 file give, if they give one
    /// that fits; returns it.
    pub fn record_from_mp4(&mut self, key: &str, data: &Vec<u8>) -> (r: Option<u32>)
        requires
            old(self).wf(),
        ensures
            final(self).wf(),
            match mp4_duration_of(data@) {
                Some(s) => if s <= u32::MAX {
                    r == Some(s as u32) && final(self)@ == old(self)@.insert(key@, s as u32)
                } else {
                    r is None && final(self)@ == old(self)@
                },
                None => r is None && final(self)@ == old(self)@,
            },
    {
        match mp4_duration_secs(data) {
            Some(s) => {
                if s <= u32::MAX as u64 {
                    self.insert(key, s as u32);
                    Some(s as u32)
                } else {
                    None
                }
            },
            None => None,
        }
    }

    /// The length of the song being sung, or 0 when none is sung or none is recorded.
    pub fn total_for(&self, singing: &Option<String>) -> (r: u64)
        requires
            self.wf(),
        ensures
            r == match opt_view(*singing) {
                Some(k) => if self@.contains_key(k) { self@[k] as u64 } else { 0 },
                None => 0,
            },
    {
        match singing {
            Some(k) => match self.get(k.as_str()) {
                Some(d) => d as u64,
                None => 0,
            },
            None => 0,
        }
    }
}

} // verus!
